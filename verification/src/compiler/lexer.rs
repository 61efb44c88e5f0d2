//! Lexical analysis. [`analyzer::analyze`] is the scanner of the editor;
//! [`analizar`] is the first scanner, kept with its own token records.
pub mod analyzer;
pub mod errors;
pub mod handlers;
pub mod model;
pub mod positions;
pub mod tokenizer;

use vstd::prelude::*;
use crate::compiler::lexer::handlers::{LexerHandlers, token_view, error_view};
use crate::compiler::lexer::model::{
    lex, lex_from, lex_step, opt_seq, lemma_lex_from_unfold, lemma_step_bounds,
    lemma_lex_from_well_placed, well_placed,
};
use crate::models::error::LexicalErrorView;
use crate::models::token::TokenView;
use crate::compiler::lexer::positions::{lemma_lex_located, located};
use crate::text::str_to_chars;

verus! {

/// A token of the first scanner: type, text, line and column.
#[derive(Debug)]
pub struct Token {
    pub tipo: String,
    pub lexema: String,
    pub linea: usize,
    pub columna: usize,
}

impl View for Token {
    type V = TokenView;

    open spec fn view(&self) -> TokenView {
        TokenView {
            token_type: self.tipo@,
            lexeme: self.lexema@,
            line: self.linea as int,
            column: self.columna as int,
        }
    }
}

impl DeepView for Token {
    type V = TokenView;

    open spec fn deep_view(&self) -> TokenView {
        self@
    }
}

/// A lexical error of the first scanner.
#[derive(Debug)]
pub struct ErrorLexico {
    pub message: String,
    pub linea: usize,
    pub columna: usize,
}

impl View for ErrorLexico {
    type V = LexicalErrorView;

    open spec fn view(&self) -> LexicalErrorView {
        LexicalErrorView { message: self.message@, line: self.linea as int, column: self.columna as int }
    }
}

impl DeepView for ErrorLexico {
    type V = LexicalErrorView;

    open spec fn deep_view(&self) -> LexicalErrorView {
        self@
    }
}

fn record_token(t: crate::models::Token) -> (r: Token)
    ensures
        r@ == t@,
{
    Token { tipo: t.token_type, lexema: t.lexeme, linea: t.line, columna: t.column }
}

fn record_error(e: crate::models::LexicalError) -> (r: ErrorLexico)
    ensures
        r@ == e@,
{
    ErrorLexico { message: e.message, linea: e.line, columna: e.column }
}

/// The first scanner: like [`analyzer::analyze`] but without the spellings
/// `real` and `until`, with `==`, `!=`, `<=` and `>=` as `OP` tokens, and
/// resuming at the last character after an unclosed block comment. Gives
/// exactly the tokens and errors of [`lex`] in its first form, each at the
/// line and column where its text starts.
pub fn analizar(text: &str) -> (r: (Vec<Token>, Vec<ErrorLexico>))
    requires
        text@.len() + 3 <= usize::MAX,
    ensures
        (r.0.deep_view(), r.1.deep_view()) == lex(text@, true),
        well_placed((r.0.deep_view(), r.1.deep_view()), 1),
        located(text@, (r.0.deep_view(), r.1.deep_view())),
{
    let mut tokens: Vec<Token> = Vec::new();
    let mut errores: Vec<ErrorLexico> = Vec::new();
    let mut linea: usize = 1;
    let mut columna: usize = 1;
    let chars: Vec<char> = str_to_chars(text);
    let mut i: usize = 0;
    let ghost s = text@;
    assert(tokens.deep_view() =~= Seq::<TokenView>::empty());
    assert(errores.deep_view() =~= Seq::<LexicalErrorView>::empty());

    while i < chars.len()
        invariant
            chars@ == s,
            s.len() + 3 <= usize::MAX,
            i <= s.len() + 1,
            1 <= linea <= i + 1,
            1 <= columna <= i + 1,
            lex(s, true) == (
                tokens.deep_view() + lex_from(s, i as int, linea as int, columna as int, true).0,
                errores.deep_view() + lex_from(s, i as int, linea as int, columna as int, true).1,
            ),
        decreases s.len() + 1 - i,
    {
        let c = chars[i];
        let ghost i0 = i as int;
        let ghost l0 = linea as int;
        let ghost c0 = columna as int;
        let ghost st = lex_step(s, i0, l0, c0, true);
        let ghost t0 = tokens.deep_view();
        let ghost e0 = errores.deep_view();
        proof {
            lemma_step_bounds(s, i0, l0, c0, true);
            lemma_lex_from_unfold(s, i0, l0, c0, true);
        }
        let mut token: Option<crate::models::Token> = None;
        let mut error: Option<crate::models::LexicalError> = None;
        if LexerHandlers::handle_whitespace(c, &mut linea, &mut columna, &mut i) {
        } else if let Some(t) = LexerHandlers::handle_plus(
            c,
            &chars,
            linea,
            columna,
            &mut i,
            &mut linea,
            &mut columna,
        ) {
            token = Some(t);
        } else if let Some(t) = LexerHandlers::handle_minus(
            c,
            &chars,
            linea,
            columna,
            &mut i,
            &mut linea,
            &mut columna,
        ) {
            token = Some(t);
        } else if LexerHandlers::handle_line_comment(&chars, c, &mut i, &mut columna) {
        } else if let Some(result) = LexerHandlers::scan_block_comment(
            c,
            &chars,
            linea,
            columna,
            &mut i,
            &mut linea,
            &mut columna,
            true,
        ) {
            if let Err(e) = result {
                error = Some(e);
            }
        } else if let Some((t, e)) = LexerHandlers::handle_string(
            c,
            &chars,
            linea,
            columna,
            &mut i,
            &mut linea,
            &mut columna,
        ) {
            token = t;
            error = e;
        } else if let Some((t, e)) = LexerHandlers::handle_char(
            c,
            &chars,
            linea,
            columna,
            &mut i,
            &mut linea,
            &mut columna,
        ) {
            token = t;
            error = e;
        } else if let Some((t, e)) = LexerHandlers::handle_number(
            c,
            &chars,
            linea,
            columna,
            &mut i,
            &mut columna,
        ) {
            token = t;
            error = e;
        } else if let Some(t) = LexerHandlers::scan_word(
            c,
            &chars,
            linea,
            columna,
            &mut i,
            &mut columna,
            true,
        ) {
            token = Some(t);
        } else if let Some(t) = LexerHandlers::scan_legacy_double_operator(
            &chars,
            linea,
            columna,
            &mut i,
            &mut columna,
        ) {
            token = Some(t);
        } else if let Some(t) = LexerHandlers::handle_arithmetic(c, linea, columna, &mut i, &mut columna) {
            token = Some(t);
        } else if let Some(t) = LexerHandlers::handle_relational(
            c,
            &chars,
            linea,
            columna,
            &mut i,
            &mut columna,
        ) {
            token = Some(t);
        } else if let Some(t) = LexerHandlers::handle_symbol(c, linea, columna, &mut i, &mut columna) {
            token = Some(t);
        } else {
            error = Some(crate::models::LexicalError::invalid_character(c, linea, columna));
            i += 1;
            columna += 1;
        }
        assert(token_view(token) == st.token);
        assert(error_view(error) == st.error);
        assert(i == st.next && linea == st.line && columna == st.column);
        if let Some(t) = token {
            tokens.push(record_token(t));
        }
        if let Some(e) = error {
            errores.push(record_error(e));
        }
        proof {
            let rest = lex_from(s, i as int, linea as int, columna as int, true);
            assert(tokens.deep_view() =~= t0 + opt_seq(st.token));
            assert(errores.deep_view() =~= e0 + opt_seq(st.error));
            assert(tokens.deep_view() + rest.0 =~= t0 + (opt_seq(st.token) + rest.0));
            assert(errores.deep_view() + rest.1 =~= e0 + (opt_seq(st.error) + rest.1));
        }
    }
    proof {
        lemma_lex_from_well_placed(s, 0, 1, 1, true);
        lemma_lex_located(s, true);
        assert(lex_from(s, i as int, linea as int, columna as int, true).0 =~= Seq::<TokenView>::empty());
        assert(tokens.deep_view() =~= tokens.deep_view() + Seq::<TokenView>::empty());
        assert(errores.deep_view() =~= errores.deep_view() + Seq::<LexicalErrorView>::empty());
    }
    (tokens, errores)
}

} // verus!
