use vstd::prelude::*;
use crate::compiler::parser::grammar::{
    PState, adv, can_start, cur_is, cur_is_lex, decl_loop, found, ids_loop, loc, moved,
    p_program, p_variable_declaration, parse_from, parse_tokens, report, sync, sync_pos,
};
use crate::models::{AstNode, SyntaxError, Token};
use crate::models::ast::leaf;
use crate::models::error::{SyntaxErrorView, quoted_message, syntax_error_view};
use crate::models::token::TokenView;
use crate::text::str_eq;

verus! {

/// `b` begins with `a`.
pub open spec fn kept(a: Seq<SyntaxErrorView>, b: Seq<SyntaxErrorView>) -> bool {
    a.len() <= b.len() && forall|k: int| 0 <= k < a.len() ==> #[trigger] b[k] == a[k]
}

/// A recursive-descent parser over a token sequence. It never stops at an
/// error: each one is recorded in `errors` and parsing goes on.
pub struct Parser<'a> {
    pub tokens: &'a [Token],
    pub pos: usize,
    pub errors: Vec<SyntaxError>,
}

/// `a ++ b`
pub(crate) fn concat(a: &str, b: &str) -> (s: String)
    ensures
        s@ == a@ + b@,
{
    let mut s = a.to_owned();
    s.append(b);
    s
}

/// `label(op)`
pub(crate) fn paren_label(label: &str, op: &str) -> (s: String)
    ensures
        s@ == label@ + "("@ + op@ + ")"@,
{
    let mut s = label.to_owned();
    s.append("(");
    s.append(op);
    s.append(")");
    s
}

impl<'a> Parser<'a> {
    /// The tokens as plain values.
    pub open spec fn ts(&self) -> Seq<TokenView> {
        self.tokens.deep_view()
    }

    /// The position and the errors so far.
    pub open spec fn state(&self) -> PState {
        PState { pos: self.pos as int, errors: self.errors.deep_view() }
    }

    /// `next` is this parser after a step that kept the tokens, did not move
    /// back, stayed within them and only added errors after the ones it had.
    pub open spec fn stepped(&self, next: &Self) -> bool {
        &&& next.tokens == self.tokens
        &&& moved(self.ts(), self.state(), next.state())
        &&& kept(self.state().errors, next.state().errors)
    }

    /// A parser at the first token, with no errors.
    pub fn new(tokens: &'a [Token]) -> (p: Self)
        ensures
            p.tokens == tokens,
            p.pos == 0,
            p.errors@.len() == 0,
    {
        Self { tokens, pos: 0, errors: Vec::new() }
    }

    /// Parses the tokens from the current one on: a `Program` root whose only
    /// child is the `main` program, with every error added to `errors`. On a
    /// new parser that is the tree and the errors of the whole sequence. The
    /// tokens stay, the position stays within them, and the errors found
    /// before stay in front of the new ones.
    pub fn parse(&mut self) -> (root: AstNode)
        requires
            old(self).pos <= old(self).tokens@.len(),
        ensures
            old(self).stepped(final(self)),
            (root.node_view(), final(self).state()) == parse_from(old(self).ts(), old(self).state()),
            old(self).pos == 0 && old(self).errors@.len() == 0 ==> (
                root.node_view(),
                final(self).errors.deep_view(),
            ) == parse_tokens(old(self).ts()),
    {
        proof {
            if old(self).pos == 0 && old(self).errors@.len() == 0 {
                assert(self.errors.deep_view() =~= Seq::empty());
                assert(self.state() == (PState { pos: 0, errors: Seq::empty() }));
            }
        }
        let mut root = AstNode::new("Program");
        let program = self.parse_program();
        root.add_child(program);
        root
    }

    pub(crate) fn current(&self) -> (t: Option<&'a Token>)
        ensures
            t == (if self.pos < self.tokens@.len() {
                Some(&self.tokens@[self.pos as int])
            } else {
                None
            }),
    {
        if self.pos < self.tokens.len() {
            Some(&self.tokens[self.pos])
        } else {
            None
        }
    }

    pub(crate) fn previous(&self) -> (t: Option<&'a Token>)
        ensures
            t == (if 0 < self.pos <= self.tokens@.len() {
                Some(&self.tokens@[self.pos - 1])
            } else {
                None
            }),
    {
        if self.pos == 0 {
            None
        } else if self.pos - 1 < self.tokens.len() {
            Some(&self.tokens[self.pos - 1])
        } else {
            None
        }
    }

    /// Moves past the current token and returns it (the last one at the
    /// end).
    pub(crate) fn advance(&mut self) -> (t: Option<&'a Token>)
        requires
            old(self).pos <= old(self).tokens@.len(),
        ensures
            final(self).tokens == old(self).tokens,
            final(self).errors == old(self).errors,
            final(self).state() == adv(old(self).ts(), old(self).state()),
            t == (if 0 < final(self).pos <= final(self).tokens@.len() {
                Some(&final(self).tokens@[final(self).pos - 1])
            } else {
                None
            }),
    {
        if self.pos < self.tokens.len() {
            self.pos += 1;
        }
        self.previous()
    }

    pub(crate) fn at_end(&self) -> (b: bool)
        ensures
            b == (self.pos >= self.tokens@.len()),
    {
        self.pos >= self.tokens.len()
    }

    pub(crate) fn check_type(&self, token_type: &str) -> (b: bool)
        ensures
            b == cur_is(self.ts(), self.pos as int, token_type@),
    {
        match self.current() {
            Some(token) => str_eq(token.token_type.as_str(), token_type),
            None => false,
        }
    }

    pub(crate) fn check_lexeme(&self, token_type: &str, lexeme: &str) -> (b: bool)
        ensures
            b == cur_is_lex(self.ts(), self.pos as int, token_type@, lexeme@),
    {
        match self.current() {
            Some(token) => str_eq(token.token_type.as_str(), token_type) && str_eq(
                token.lexeme.as_str(),
                lexeme,
            ),
            None => false,
        }
    }

    /// Consumes a token of the given type, if it is the current one.
    pub(crate) fn match_type(&mut self, token_type: &str) -> (b: bool)
        requires
            old(self).pos <= old(self).tokens@.len(),
        ensures
            b == cur_is(old(self).ts(), old(self).pos as int, token_type@),
            final(self).tokens == old(self).tokens,
            final(self).errors == old(self).errors,
            final(self).state() == (if b {
                adv(old(self).ts(), old(self).state())
            } else {
                old(self).state()
            }),
    {
        if self.check_type(token_type) {
            self.advance();
            true
        } else {
            false
        }
    }

    /// Consumes a token of the given type and text, if it is the current one.
    pub(crate) fn match_lexeme(&mut self, token_type: &str, lexeme: &str) -> (b: bool)
        requires
            old(self).pos <= old(self).tokens@.len(),
        ensures
            b == cur_is_lex(old(self).ts(), old(self).pos as int, token_type@, lexeme@),
            final(self).tokens == old(self).tokens,
            final(self).errors == old(self).errors,
            final(self).state() == (if b {
                adv(old(self).ts(), old(self).state())
            } else {
                old(self).state()
            }),
    {
        if self.check_lexeme(token_type, lexeme) {
            self.advance();
            true
        } else {
            false
        }
    }

    /// Consumes a token of the given type, or records
    /// "<message>, found '<current text>'" at the current token.
    pub(crate) fn consume(&mut self, token_type: &str, message: &str) -> (t: Option<&'a Token>)
        requires
            old(self).pos <= old(self).tokens@.len(),
        ensures
            final(self).tokens == old(self).tokens,
            cur_is(old(self).ts(), old(self).pos as int, token_type@) ==> {
                &&& t == Some(&old(self).tokens@[old(self).pos as int])
                &&& final(self).state() == adv(old(self).ts(), old(self).state())
            },
            !cur_is(old(self).ts(), old(self).pos as int, token_type@) ==> {
                &&& t is None
                &&& final(self).state() == ({
                    let l = loc(old(self).ts(), old(self).pos as int);
                    PState {
                        errors: old(self).state().errors.push(
                            syntax_error_view(
                                quoted_message(message@ + ", found '"@, found(old(self).ts(), old(self).pos as int)),
                                l.0,
                                l.1,
                            ),
                        ),
                        ..old(self).state()
                    }
                })
            },
    {
        if self.check_type(token_type) {
            return self.advance();
        }
        let (line, column, found) = self.location_details();
        self.errors.push(SyntaxError::expected_token(message, found.as_str(), line, column));
        proof {
            assert(self.errors.deep_view() =~= old(self).errors.deep_view().push(self.errors@.last()@));
        }
        None
    }

    /// Error recovery: skips tokens until just after a `;`, before a token
    /// that starts a construct, or to the end.
    pub(crate) fn synchronize(&mut self)
        requires
            old(self).pos <= old(self).tokens@.len(),
        ensures
            final(self).tokens == old(self).tokens,
            final(self).state() == sync(old(self).ts(), old(self).state()),
            old(self).pos <= final(self).pos <= final(self).tokens@.len(),
    {
        let ghost p0 = self.pos as int;
        while !self.at_end()
            invariant
                p0 == old(self).pos,
                self.tokens == old(self).tokens,
                self.errors == old(self).errors,
                p0 <= self.pos <= self.tokens@.len(),
                sync_pos(self.ts(), self.pos as int) == sync_pos(self.ts(), p0),
            decreases self.tokens@.len() - self.pos,
        {
            if let Some(token) = self.previous() {
                if str_eq(token.token_type.as_str(), "SYM") && str_eq(token.lexeme.as_str(), ";") {
                    return;
                }
            }
            let t = &self.tokens[self.pos];
            let ty = t.token_type.as_str();
            if str_eq(ty, "MAIN") || str_eq(ty, "IF") || str_eq(ty, "WHILE") || str_eq(ty, "DO")
                || str_eq(ty, "CIN") || str_eq(ty, "COUT") || str_eq(ty, "INT_T") || str_eq(
                ty,
                "FLOAT_T",
            ) || str_eq(ty, "BOOL_T") || str_eq(ty, "END") || str_eq(ty, "ELSE") {
                return;
            }
            self.advance();
        }
    }

    pub(crate) fn location_or_zero(&self) -> (r: (usize, usize))
        ensures
            (r.0 as int, r.1 as int) == loc(self.ts(), self.pos as int),
    {
        if let Some(token) = self.current() {
            (token.line, token.column)
        } else {
            (0, 0)
        }
    }

    pub(crate) fn location_details(&self) -> (r: (usize, usize, String))
        ensures
            (r.0 as int, r.1 as int) == loc(self.ts(), self.pos as int),
            r.2@ == found(self.ts(), self.pos as int),
    {
        if let Some(token) = self.current() {
            (token.line, token.column, token.lexeme.clone())
        } else {
            (0, 0, "EOF".to_owned())
        }
    }

    pub(crate) fn can_start_statement(&self) -> (b: bool)
        ensures
            b == can_start(self.ts(), self.pos as int),
    {
        match self.current() {
            Some(token) => {
                let ty = token.token_type.as_str();
                str_eq(ty, "IF") || str_eq(ty, "WHILE") || str_eq(ty, "DO") || str_eq(ty, "CIN")
                    || str_eq(ty, "COUT") || str_eq(ty, "ID")
            },
            None => false,
        }
    }

    /// Records `message` at the current token.
    pub(crate) fn report_here(&mut self, message: &str)
        ensures
            final(self).tokens == old(self).tokens,
            final(self).pos == old(self).pos,
            final(self).state() == report(old(self).ts(), old(self).state(), message@),
    {
        let (line, column) = self.location_or_zero();
        self.errors.push(SyntaxError::new(message, line, column));
        proof {
            assert(self.errors.deep_view() =~= old(self).errors.deep_view().push(self.errors@.last()@));
        }
    }

    fn parse_program(&mut self) -> (node: AstNode)
        requires
            old(self).pos <= old(self).tokens@.len(),
        ensures
            old(self).stepped(final(self)),
            (node.node_view(), final(self).state()) == p_program(old(self).ts(), old(self).state()),
    {
        let (prog_line, prog_col) = self.location_or_zero();
        let mut node = AstNode::new("MainProgram").with_pos(prog_line, prog_col);

        if self.match_type("MAIN") {
            let prev = self.previous().unwrap();
            node.add_child(AstNode::new("main").with_pos(prev.line, prev.column));
        } else {
            self.report_here("Expected 'main'");
        }

        if self.match_lexeme("SYM", "{") {
            let decls = self.parse_declaration_list();
            node.add_child(decls);
            if !self.match_lexeme("SYM", "}") {
                self.report_here("Expected '}' at end of program");
            }
        } else {
            self.report_here("Expected '{' after main");
            self.synchronize();
        }
        node
    }

    fn parse_declaration_list(&mut self) -> (node: AstNode)
        requires
            old(self).pos <= old(self).tokens@.len(),
        ensures
            old(self).stepped(final(self)),
            (node.node_view(), final(self).state()) == decl_loop(
                old(self).ts(),
                leaf("DeclarationList"@),
                old(self).state(),
            ),
    {
        let ghost ts = self.ts();
        let ghost st0 = self.state();
        let mut node = AstNode::new("DeclarationList");
        while !self.at_end() && !self.check_lexeme("SYM", "}")
            invariant
                self.tokens == old(self).tokens,
                ts == self.ts(),
                st0 == old(self).state(),
                kept(st0.errors, self.state().errors),
                st0.pos <= self.pos <= self.tokens@.len(),
                decl_loop(ts, node.node_view(), self.state()) == decl_loop(
                    ts,
                    leaf("DeclarationList"@),
                    st0,
                ),
            decreases self.tokens@.len() - self.pos,
        {
            if self.check_type("INT_T") || self.check_type("FLOAT_T") || self.check_type("BOOL_T") {
                let d = self.parse_variable_declaration();
                node.add_child(d);
            } else if self.can_start_statement() {
                let d = self.parse_statement();
                node.add_child(d);
            } else {
                let (_line, _column, found) = self.location_details();
                let mut message = concat("Unexpected token '", found.as_str());
                message.append("' in declaration list");
                self.report_here(message.as_str());
                self.advance();
            }
        }
        node
    }

    fn parse_variable_declaration(&mut self) -> (node: AstNode)
        requires
            old(self).pos < old(self).tokens@.len(),
        ensures
            old(self).stepped(final(self)),
            (node.node_view(), final(self).state()) == p_variable_declaration(
                old(self).ts(),
                old(self).state(),
            ),
            old(self).pos < final(self).pos,
    {
        let (decl_line, decl_col) = self.location_or_zero();
        proof {
            reveal(p_variable_declaration);
        }
        let mut node = AstNode::new("VariableDeclaration").with_pos(decl_line, decl_col);
        if let Some(token) = self.advance() {
            let label = concat("type: ", token.lexeme.as_str());
            node.add_child(AstNode::new(label.as_str()).with_pos(token.line, token.column));
        }
        let mut ids = AstNode::new("Identifiers");
        if self.check_type("ID") {
            let token = self.current().unwrap();
            ids.add_child(AstNode::new(token.lexeme.as_str()).with_pos(token.line, token.column));
            self.advance();
        } else {
            self.report_here("Expected identifier in declaration");
        }

        let ghost ts = self.ts();
        let ghost ids_spec = ids_loop(ts, ids.node_view(), self.state());
        let ghost p1 = self.pos;
        loop
            invariant_except_break
                ids_spec == ids_loop(ts, ids.node_view(), self.state()),
            invariant
                self.tokens == old(self).tokens,
                ts == self.ts(),
                old(self).pos < p1 <= self.pos <= self.tokens@.len(),
                kept(old(self).state().errors, self.state().errors),
            ensures
                self.tokens == old(self).tokens,
                old(self).pos < self.pos <= self.tokens@.len(),
                ids_spec == (ids.node_view(), self.state()),
            decreases self.tokens@.len() - self.pos,
        {
            if !self.match_lexeme("SYM", ",") {
                break;
            }
            if self.check_type("ID") {
                let token = self.current().unwrap();
                ids.add_child(AstNode::new(token.lexeme.as_str()).with_pos(token.line, token.column));
                self.advance();
            } else {
                self.report_here("Expected identifier after comma");
                self.synchronize();
                break;
            }
        }

        node.add_child(ids);
        if !self.match_lexeme("SYM", ";") {
            self.report_here("Expected ';' after declaration");
            self.synchronize();
        }
        node
    }
}

} // verus!
