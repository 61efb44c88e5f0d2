use vstd::prelude::*;
use crate::compiler::lexer::errors::invalid_character;
use crate::compiler::lexer::handlers::{LexerHandlers, token_view, error_view};
use crate::compiler::lexer::model::{
    lex, lex_from, lex_step, opt_seq, lemma_lex_from_unfold, lemma_step_bounds,
    lemma_lex_from_well_placed, well_placed,
};
use crate::models::{LexicalError, Token};
use crate::models::error::LexicalErrorView;
use crate::models::token::TokenView;
use crate::compiler::lexer::positions::{lemma_lex_located, located};
use crate::text::str_to_chars;

verus! {

/// Splits C-- source text into tokens and lexical errors: exactly the
/// tokens and errors of [`lex`], in the order of the text. Each one carries
/// the line and column where its text starts in `text` (an error: of the
/// character it reports), so a click on it can lead back there.
pub fn analyze(text: &str) -> (r: (Vec<Token>, Vec<LexicalError>))
    requires
        text@.len() + 3 <= usize::MAX,
    ensures
        (r.0.deep_view(), r.1.deep_view()) == lex(text@, false),
        well_placed((r.0.deep_view(), r.1.deep_view()), 1),
        located(text@, (r.0.deep_view(), r.1.deep_view())),
{
    let mut tokens: Vec<Token> = Vec::new();
    let mut errors: Vec<LexicalError> = Vec::new();
    let mut line: usize = 1;
    let mut column: usize = 1;
    let chars: Vec<char> = str_to_chars(text);
    let mut i: usize = 0;
    let ghost s = text@;
    assert(tokens.deep_view() =~= Seq::<TokenView>::empty());
    assert(errors.deep_view() =~= Seq::<LexicalErrorView>::empty());

    while i < chars.len()
        invariant
            chars@ == s,
            s.len() + 3 <= usize::MAX,
            i <= s.len() + 1,
            1 <= line <= i + 1,
            1 <= column <= i + 1,
            lex(s, false) == (
                tokens.deep_view() + lex_from(s, i as int, line as int, column as int, false).0,
                errors.deep_view() + lex_from(s, i as int, line as int, column as int, false).1,
            ),
        decreases s.len() + 1 - i,
    {
        let c = chars[i];
        let ghost i0 = i as int;
        let ghost l0 = line as int;
        let ghost c0 = column as int;
        let ghost st = lex_step(s, i0, l0, c0, false);
        let ghost t0 = tokens.deep_view();
        let ghost e0 = errors.deep_view();
        proof {
            lemma_step_bounds(s, i0, l0, c0, false);
            lemma_lex_from_unfold(s, i0, l0, c0, false);
        }
        let mut token: Option<Token> = None;
        let mut error: Option<LexicalError> = None;
        if LexerHandlers::handle_whitespace(c, &mut line, &mut column, &mut i) {
        } else if let Some(t) = LexerHandlers::handle_plus(
            c,
            &chars,
            line,
            column,
            &mut i,
            &mut line,
            &mut column,
        ) {
            token = Some(t);
        } else if let Some(t) = LexerHandlers::handle_minus(
            c,
            &chars,
            line,
            column,
            &mut i,
            &mut line,
            &mut column,
        ) {
            token = Some(t);
        } else if LexerHandlers::handle_line_comment(&chars, c, &mut i, &mut column) {
        } else if let Some(result) = LexerHandlers::handle_block_comment_start(
            c,
            &chars,
            line,
            column,
            &mut i,
            &mut line,
            &mut column,
        ) {
            if let Err(e) = result {
                error = Some(e);
            }
        } else if let Some((t, e)) = LexerHandlers::handle_string(
            c,
            &chars,
            line,
            column,
            &mut i,
            &mut line,
            &mut column,
        ) {
            token = t;
            error = e;
        } else if let Some((t, e)) = LexerHandlers::handle_char(
            c,
            &chars,
            line,
            column,
            &mut i,
            &mut line,
            &mut column,
        ) {
            token = t;
            error = e;
        } else if let Some((t, e)) = LexerHandlers::handle_number(
            c,
            &chars,
            line,
            column,
            &mut i,
            &mut column,
        ) {
            token = t;
            error = e;
        } else if let Some(t) = LexerHandlers::handle_identifier(
            c,
            &chars,
            line,
            column,
            &mut i,
            &mut column,
        ) {
            token = Some(t);
        } else if let Some(t) = LexerHandlers::handle_double_operator(
            &chars,
            line,
            column,
            &mut i,
            &mut column,
        ) {
            token = Some(t);
        } else if let Some(t) = LexerHandlers::handle_arithmetic(c, line, column, &mut i, &mut column) {
            token = Some(t);
        } else if let Some(t) = LexerHandlers::handle_relational(
            c,
            &chars,
            line,
            column,
            &mut i,
            &mut column,
        ) {
            token = Some(t);
        } else if let Some(t) = LexerHandlers::handle_symbol(c, line, column, &mut i, &mut column) {
            token = Some(t);
        } else {
            error = Some(invalid_character(c, line, column));
            i += 1;
            column += 1;
        }
        assert(token_view(token) == st.token);
        assert(error_view(error) == st.error);
        assert(i == st.next && line == st.line && column == st.column);
        push_token_or_error(&mut tokens, &mut errors, token, error);
        proof {
            let rest = lex_from(s, i as int, line as int, column as int, false);
            assert(tokens.deep_view() + rest.0 =~= t0 + (opt_seq(st.token) + rest.0));
            assert(errors.deep_view() + rest.1 =~= e0 + (opt_seq(st.error) + rest.1));
        }
    }
    proof {
        lemma_lex_from_well_placed(s, 0, 1, 1, false);
        lemma_lex_located(s, false);
        assert(lex_from(s, i as int, line as int, column as int, false).0 =~= Seq::<TokenView>::empty());
        assert(tokens.deep_view() =~= tokens.deep_view() + Seq::<TokenView>::empty());
        assert(errors.deep_view() =~= errors.deep_view() + Seq::<LexicalErrorView>::empty());
    }
    (tokens, errors)
}

/// Appends what a handler produced: its token, then its error.
fn push_token_or_error(
    tokens: &mut Vec<Token>,
    errors: &mut Vec<LexicalError>,
    token: Option<Token>,
    error: Option<LexicalError>,
)
    ensures
        final(tokens).deep_view() == old(tokens).deep_view() + opt_seq(token_view(token)),
        final(errors).deep_view() == old(errors).deep_view() + opt_seq(error_view(error)),
{
    if let Some(t) = token {
        tokens.push(t);
    }
    if let Some(e) = error {
        errors.push(e);
    }
    assert(tokens.deep_view() =~= old(tokens).deep_view() + opt_seq(token_view(token)));
    assert(errors.deep_view() =~= old(errors).deep_view() + opt_seq(error_view(error)));
}

} // verus!
