//! Token lists as text: one token per line, `TYPE LEXEME LINE COLUMN`.
use vstd::prelude::*;
use crate::compiler::lexer::model::{lemma_lex_from_tags, lemma_lex_from_well_placed, lex, opt_seq};
use crate::compiler::parser::grammar::parse_tokens;
use crate::models::Token;
use crate::models::token::TokenView;
use crate::text::{
    decimal, find_first_in, find_last_in, first_index, is_white, last_index,
    lemma_first_index, lemma_first_index_at, lemma_first_index_none, lemma_last_index_at,
    lemma_decimal, lemma_parse_decimal, lemma_trim_bounds, is_digit, parse_usize, parse_usize_chars, str_to_chars,
    string_from_chars, trim, trim_bounds, usize_to_decimal,
};

verus! {

/// A number field: its value, or 0 where it does not parse.
pub open spec fn number_or_zero(s: Seq<char>) -> int {
    match parse_usize(s) {
        Some(n) => n as int,
        None => 0,
    }
}

/// The token that a trimmed line describes. The last two space-separated
/// fields are the line and the column; of what comes before, the part up to
/// the first space is the type and the rest the lexeme. A line with fewer
/// than three spaces describes no token.
pub open spec fn line_token(t: Seq<char>) -> Option<TokenView> {
    let a = last_index(t, ' ');
    let u = t.take(a);
    let b = last_index(u, ' ');
    let rest = u.take(b);
    let f = first_index(rest, ' ');
    if t.len() == 0 || a < 0 || b < 0 || f < 0 {
        None
    } else {
        Some(
            TokenView {
                token_type: rest.take(f),
                lexeme: rest.skip(f + 1),
                line: number_or_zero(u.skip(b + 1)),
                column: number_or_zero(t.skip(a + 1)),
            },
        )
    }
}

/// The tokens that the lines of `s` describe, in order; lines are separated
/// by `'\n'` and trimmed first.
pub open spec fn text_tokens(s: Seq<char>) -> Seq<TokenView>
    decreases s.len(),
{
    let k = first_index(s, '\n');
    if k < 0 {
        opt_seq(line_token(trim(s)))
    } else {
        proof {
            lemma_first_index(s, '\n');
        }
        opt_seq(line_token(trim(s.take(k)))) + text_tokens(s.skip(k + 1))
    }
}

/// `s[lo..hi].parse::<usize>().unwrap_or(0)`
fn number_field(s: &[char], lo: usize, hi: usize) -> (n: usize)
    requires
        lo <= hi <= s@.len(),
    ensures
        n as int == number_or_zero(s@.subrange(lo as int, hi as int)),
{
    match parse_usize_chars(s, lo, hi) {
        Some(n) => n,
        None => 0,
    }
}

/// The token described by the line `s[lo..hi]`, if any.
fn token_of_line(s: &[char], lo: usize, hi: usize) -> (r: Option<Token>)
    requires
        lo <= hi <= s@.len(),
    ensures
        match r {
            Some(t) => line_token(trim(s@.subrange(lo as int, hi as int))) == Some(t@),
            None => line_token(trim(s@.subrange(lo as int, hi as int))) is None,
        },
{
    let (i, j) = trim_bounds(s, lo, hi);
    let ghost t = s@.subrange(i as int, j as int);
    if i == j {
        return None;
    }
    let a = match find_last_in(s, i, j, ' ') {
        Some(a) => a,
        None => {
            return None;
        },
    };
    let ghost u = t.take(a - i);
    assert(u =~= s@.subrange(i as int, a as int));
    let b = match find_last_in(s, i, a, ' ') {
        Some(b) => b,
        None => {
            return None;
        },
    };
    let ghost rest = u.take(b - i);
    assert(rest =~= s@.subrange(i as int, b as int));
    let f = match find_first_in(s, i, b, ' ') {
        Some(f) => f,
        None => {
            return None;
        },
    };
    let line = number_field(s, b + 1, a);
    let column = number_field(s, a + 1, j);
    let token_type = string_from_chars(s, i, f);
    let lexeme = string_from_chars(s, f + 1, b);
    proof {
        assert(rest.take(f - i) =~= s@.subrange(i as int, f as int));
        assert(rest.skip(f - i + 1) =~= s@.subrange(f + 1, b as int));
        assert(u.skip(b - i + 1) =~= s@.subrange(b + 1, a as int));
        assert(t.skip(a - i + 1) =~= s@.subrange(a + 1, j as int));
    }
    Some(Token::new(token_type.as_str(), lexeme.as_str(), line, column))
}

/// Reads a token list back from text written one token per line as
/// `TYPE LEXEME LINE COLUMN`. Blank lines and lines without three spaces are
/// skipped; a line or column that is not a number reads as 0.
pub fn parse_tokens_from_text(input: &str) -> (tokens: Vec<Token>)
    ensures
        tokens.deep_view() == text_tokens(input@),
{
    let cs = str_to_chars(input);
    let n = cs.len();
    let mut out: Vec<Token> = Vec::new();
    let mut pos: usize = 0;
    assert(cs@.skip(0) =~= cs@);
    assert(out.deep_view() + text_tokens(cs@.skip(0)) =~= text_tokens(input@));
    loop
        invariant_except_break
            cs@ == input@,
            n == cs@.len(),
            pos <= n,
            out.deep_view() + text_tokens(cs@.skip(pos as int)) == text_tokens(input@),
        ensures
            out.deep_view() == text_tokens(input@),
        decreases n - pos,
    {
        let mut e = pos;
        while e < n && cs[e] != '\n'
            invariant
                pos <= e <= n,
                n == cs@.len(),
                forall|j: int| pos <= j < e ==> cs@[j] != '\n',
            decreases n - e,
        {
            e += 1;
        }
        let ghost rest = cs@.skip(pos as int);
        let ghost before = out.deep_view();
        proof {
            assert forall|j: int| 0 <= j < e - pos implies rest[j] != '\n' by {
                assert(rest[j] == cs@[j + pos]);
            }
            if e < n {
                assert(rest[e - pos] == cs@[e as int]);
                lemma_first_index_at(rest, '\n', e - pos);
                assert(rest.take(e - pos) =~= cs@.subrange(pos as int, e as int));
                assert(rest.skip(e - pos + 1) =~= cs@.skip(e + 1));
            } else {
                lemma_first_index_none(rest, '\n');
                assert(rest =~= cs@.subrange(pos as int, e as int));
            }
        }
        let tok = token_of_line(cs.as_slice(), pos, e);
        let ghost line_part = opt_seq(line_token(trim(cs@.subrange(pos as int, e as int))));
        match tok {
            Some(t) => {
                out.push(t);
            },
            None => {},
        }
        assert(out.deep_view() =~= before + line_part);
        if e == n {
            assert(text_tokens(rest) == line_part);
            assert(out.deep_view() =~= before + text_tokens(rest));
            break ;
        }
        assert(text_tokens(rest) == line_part + text_tokens(cs@.skip(e + 1)));
        assert(before + text_tokens(rest) =~= out.deep_view() + text_tokens(cs@.skip(e + 1)));
        pos = e + 1;
    }
    out
}

/// The text line of one token: `TYPE LEXEME LINE COLUMN` and a line break.
pub open spec fn token_line(t: TokenView) -> Seq<char> {
    t.token_type + seq![' '] + t.lexeme + seq![' '] + decimal(t.line as nat) + seq![' ']
        + decimal(t.column as nat) + seq!['\n']
}

/// The lines of all tokens, in order.
pub open spec fn tokens_text(ts: Seq<TokenView>) -> Seq<char>
    decreases ts.len(),
{
    if ts.len() == 0 {
        Seq::empty()
    } else {
        token_line(ts[0]) + tokens_text(ts.drop_first())
    }
}

proof fn lemma_tokens_text_append(a: Seq<TokenView>, b: Seq<TokenView>)
    ensures
        tokens_text(a + b) == tokens_text(a) + tokens_text(b),
    decreases a.len(),
{
    if a.len() == 0 {
        assert(a + b =~= b);
        assert(tokens_text(a) + tokens_text(b) =~= tokens_text(b));
    } else {
        lemma_tokens_text_append(a.drop_first(), b);
        assert((a + b).drop_first() =~= a.drop_first() + b);
        assert(tokens_text(a + b) =~= token_line(a[0]) + tokens_text(a.drop_first() + b));
        assert(tokens_text(a) + tokens_text(b) =~= token_line(a[0]) + (tokens_text(a.drop_first())
            + tokens_text(b)));
    }
}

/// Writes a token list as text, one token per line: `TYPE LEXEME LINE COLUMN`.
pub fn tokens_to_text(tokens: &[Token]) -> (s: String)
    ensures
        s@ == tokens_text(tokens.deep_view()),
{
    let ghost ts = tokens.deep_view();
    let mut s = String::new();
    let mut i: usize = 0;
    assert(ts.take(0) =~= Seq::<TokenView>::empty());
    while i < tokens.len()
        invariant
            i <= tokens.len(),
            ts == tokens.deep_view(),
            s@ == tokens_text(ts.take(i as int)),
        decreases tokens.len() - i,
    {
        let t = &tokens[i];
        let ghost before = s@;
        s.append(t.token_type.as_str());
        s.append(" ");
        s.append(t.lexeme.as_str());
        s.append(" ");
        s.append(usize_to_decimal(t.line).as_str());
        s.append(" ");
        s.append(usize_to_decimal(t.column).as_str());
        s.append("\n");
        proof {
            reveal_strlit(" ");
            reveal_strlit("\n");
            let x = ts[i as int];
            assert(x == t@);
            assert(s@ =~= before + token_line(x));
            lemma_tokens_text_append(ts.take(i as int), seq![x]);
            assert(ts.take(i + 1) =~= ts.take(i as int) + seq![x]);
            assert(seq![x].drop_first() =~= Seq::<TokenView>::empty());
            assert(tokens_text(Seq::<TokenView>::empty()) == Seq::<char>::empty());
            assert(tokens_text(seq![x]) == token_line(x) + tokens_text(seq![x].drop_first()));
            assert(tokens_text(seq![x]) =~= token_line(x));
        }
        i += 1;
    }
    assert(ts.take(i as int) =~= ts);
    s
}

/// A token that its text line carries over whole: a type that is not empty
/// and holds no whitespace, and a lexeme without line break.
pub open spec fn writable(t: TokenView) -> bool {
    &&& t.token_type.len() > 0
    &&& forall|k: int| 0 <= k < t.token_type.len() ==> !is_white(#[trigger] t.token_type[k])
    &&& forall|k: int| 0 <= k < t.lexeme.len() ==> #[trigger] t.lexeme[k] != '\n'
    &&& 0 <= t.line <= usize::MAX
    &&& 0 <= t.column <= usize::MAX
}

/// The line of a writable token ends at its first line break and reads back
/// as the token.
proof fn lemma_token_line(x: TokenView, r: Seq<char>)
    requires
        writable(x),
    ensures
        first_index(token_line(x) + r, '\n') == token_line(x).len() - 1,
        line_token(trim(token_line(x).drop_last())) == Some(x),
{
    let t = x.token_type;
    let l = x.lexeme;
    let d1 = decimal(x.line as nat);
    let d2 = decimal(x.column as nat);
    lemma_decimal(x.line as nat);
    lemma_decimal(x.column as nat);
    lemma_parse_decimal(x.line as usize);
    lemma_parse_decimal(x.column as usize);
    let body = t + seq![' '] + l + seq![' '] + d1 + seq![' '] + d2;
    let line = token_line(x);
    assert(line =~= body + seq!['\n']);
    assert(line.drop_last() =~= body);
    let p1 = t.len() as int;
    let p2 = p1 + 1 + l.len();
    let p3 = p2 + 1 + d1.len();
    assert(body.len() == p3 + 1 + d2.len());
    assert forall|k: int| 0 <= k < body.len() implies body[k] != '\n' by {
        if k < p1 {
            assert(body[k] == t[k]);
            assert(!is_white(t[k]));
        } else if k == p1 {
        } else if k < p2 {
            assert(body[k] == l[k - p1 - 1]);
        } else if k == p2 {
        } else if k < p3 {
            assert(body[k] == d1[k - p2 - 1]);
            assert(is_digit(d1[k - p2 - 1]));
        } else if k == p3 {
        } else {
            assert(body[k] == d2[k - p3 - 1]);
            assert(is_digit(d2[k - p3 - 1]));
        }
    }
    let s = line + r;
    assert forall|k: int| 0 <= k < body.len() implies s[k] != '\n' by {
        assert(s[k] == body[k]);
    }
    assert(s[body.len() as int] == '\n');
    lemma_first_index_at(s, '\n', body.len() as int);
    // the line is its own trim
    assert(body[0] == t[0]);
    assert(!is_white(t[0]));
    assert(body[body.len() - 1] == d2[d2.len() - 1]);
    lemma_trim_bounds(body, 0, body.len() as int);
    assert(body.subrange(0, body.len() as int) =~= body);
    // the last space comes before the column
    assert forall|k: int| p3 < k < body.len() implies body[k] != ' ' by {
        assert(body[k] == d2[k - p3 - 1]);
        assert(is_digit(d2[k - p3 - 1]));
    }
    lemma_last_index_at(body, ' ', p3);
    let u = body.take(p3);
    assert(u =~= t + seq![' '] + l + seq![' '] + d1);
    assert forall|k: int| p2 < k < u.len() implies u[k] != ' ' by {
        assert(u[k] == d1[k - p2 - 1]);
        assert(is_digit(d1[k - p2 - 1]));
    }
    assert(u[p2] == ' ');
    lemma_last_index_at(u, ' ', p2);
    let rest = u.take(p2);
    assert(rest =~= t + seq![' '] + l);
    assert forall|k: int| 0 <= k < p1 implies rest[k] != ' ' by {
        assert(rest[k] == t[k]);
        assert(!is_white(t[k]));
    }
    assert(rest[p1] == ' ');
    lemma_first_index_at(rest, ' ', p1);
    assert(rest.take(p1) =~= t);
    assert(rest.skip(p1 + 1) =~= l);
    assert(u.skip(p2 + 1) =~= d1);
    assert(body.skip(p3 + 1) =~= d2);
}

/// Reading back the text that [`tokens_to_text`] writes gives the same
/// tokens, as long as each token is writable.
pub proof fn lemma_text_roundtrip(ts: Seq<TokenView>)
    requires
        forall|i: int| 0 <= i < ts.len() ==> writable(#[trigger] ts[i]),
    ensures
        text_tokens(tokens_text(ts)) == ts,
    decreases ts.len(),
{
    if ts.len() == 0 {
        let e = Seq::<char>::empty();
        assert(tokens_text(ts) == e);
        assert(first_index(e, '\n') == -1);
        lemma_trim_bounds(e, 0, 0);
        assert(trim(e) =~= e);
        assert(line_token(e) is None);
        assert(text_tokens(e) =~= Seq::<TokenView>::empty());
    } else {
        let x = ts[0];
        let rest = ts.drop_first();
        assert forall|i: int| 0 <= i < rest.len() implies writable(#[trigger] rest[i]) by {
            assert(rest[i] == ts[i + 1]);
        }
        lemma_text_roundtrip(rest);
        let l = token_line(x);
        let r = tokens_text(rest);
        lemma_token_line(x, r);
        let s = l + r;
        assert(tokens_text(ts) == s);
        assert(s.take(l.len() - 1) =~= l.drop_last());
        assert(s.skip(l.len() as int) =~= r);
        assert(text_tokens(s) == opt_seq(line_token(trim(l.drop_last()))) + text_tokens(r));
        assert(text_tokens(s) =~= seq![x] + rest);
        assert(seq![x] + rest =~= ts);
    }
}

/// Syntax analysis over the tokens read back from their saved text gives
/// the same tree and errors as over the tokens themselves.
pub proof fn lemma_saved_tokens_parse_alike(ts: Seq<TokenView>)
    requires
        forall|i: int| 0 <= i < ts.len() ==> writable(#[trigger] ts[i]),
    ensures
        parse_tokens(text_tokens(tokens_text(ts))) == parse_tokens(ts),
{
    lemma_text_roundtrip(ts);
}

/// The tokens of a source text, saved and read back, are the same tokens, so
/// syntax analysis from the saved file gives what it gives on the source;
/// this holds unless a lexeme spans lines (a string or character literal
/// with a line break inside).
pub proof fn lemma_source_tokens_saved_alike(src: Seq<char>)
    requires
        src.len() <= usize::MAX,
        forall|k: int, j: int|
            0 <= k < lex(src, false).0.len() && 0 <= j < lex(src, false).0[k].lexeme.len()
                ==> #[trigger] lex(src, false).0[k].lexeme[j] != '\n',
    ensures
        text_tokens(tokens_text(lex(src, false).0)) == lex(src, false).0,
        parse_tokens(text_tokens(tokens_text(lex(src, false).0))) == parse_tokens(
            lex(src, false).0,
        ),
{
    let ts = lex(src, false).0;
    lemma_lex_from_tags(src, 0, 1, 1, false);
    lemma_lex_from_well_placed(src, 0, 1, 1, false);
    assert forall|i: int| 0 <= i < ts.len() implies writable(#[trigger] ts[i]) by {
        let t = ts[i];
        assert forall|j: int| 0 <= j < t.lexeme.len() implies #[trigger] t.lexeme[j] != '\n' by {
            assert(lex(src, false).0[i].lexeme[j] != '\n');
        }
    }
    lemma_text_roundtrip(ts);
}

} // verus!
