//! What the parser builds, stated over the token sequence.
//!
//! Each function takes the tokens and the parser state (position and the
//! errors reported so far) and gives the node built and the state after it,
//! following the grammar of C--:
//!
//! ```text
//! program     = "main" "{" { declaration | statement } "}"
//! declaration = ("int" | "float" | "bool") id { "," id } ";"
//! statement   = selection | iteration | repetition | input | output | id-stmt
//! selection   = "if" expr "then" { statement } [ "else" { statement } ] "end" [";"]
//! iteration   = "while" expr ( "{" { statement } "}" | { statement } "end" ) [";"]
//! repetition  = "do" ( "{" { statement } "}" | { statement } ) ("while" | "until") expr [";"]
//! input       = "cin" ">>" id ";"
//! output      = "cout" "<<" operand { "<<" operand } [";"]
//! id-stmt     = id ("++" | "--") ";" | id "=" ( ";" | expr ";" )
//! expr        = and { "||" and }
//! and         = rel { "&&" rel }
//! rel         = simple [ relop simple ]
//! simple      = term { ("+" | "-") term | "++" | "--" }
//! term        = factor { ("*" | "/" | "%") factor }
//! factor      = power { "^" power }
//! power       = ("++" | "--" | "!") power | component
//! component   = "(" expr ")" | number | bool | id | string  [ "++" | "--" ]
//! ```
//!
//! A missing piece is reported at the current token (line and column 0 at
//! the end of input); after some of them the parser skips ahead to a point
//! where it can resume ([`sync_pos`]).
use vstd::prelude::*;
use crate::models::ast::{NodeView, leaf, leaf_at, placed_opt, with_child};
use crate::models::error::{SyntaxErrorView, syntax_error_view};
use crate::models::token::TokenView;

verus! {

/// The parser's position in the tokens and the errors reported so far.
pub struct PState {
    pub pos: int,
    pub errors: Seq<SyntaxErrorView>,
}

pub open spec fn cur_is(ts: Seq<TokenView>, p: int, ty: Seq<char>) -> bool {
    0 <= p < ts.len() && ts[p].token_type == ty
}

pub open spec fn cur_is_lex(ts: Seq<TokenView>, p: int, ty: Seq<char>, lx: Seq<char>) -> bool {
    cur_is(ts, p, ty) && ts[p].lexeme == lx
}

/// Moves past the current token, if there is one.
pub open spec fn adv(ts: Seq<TokenView>, st: PState) -> PState {
    if 0 <= st.pos < ts.len() {
        PState { pos: st.pos + 1, ..st }
    } else {
        st
    }
}

/// The position of the current token, or `(0, 0)` at the end.
pub open spec fn loc(ts: Seq<TokenView>, p: int) -> (int, int) {
    if 0 <= p < ts.len() {
        (ts[p].line, ts[p].column)
    } else {
        (0, 0)
    }
}

/// The text of the current token, or `EOF` at the end.
pub open spec fn found(ts: Seq<TokenView>, p: int) -> Seq<char> {
    if 0 <= p < ts.len() {
        ts[p].lexeme
    } else {
        "EOF"@
    }
}

/// Reports `msg` at the current token.
pub open spec fn report(ts: Seq<TokenView>, st: PState, msg: Seq<char>) -> PState {
    let l = loc(ts, st.pos);
    PState { errors: st.errors.push(syntax_error_view(msg, l.0, l.1)), ..st }
}

/// The token types at which error recovery stops.
pub open spec fn is_sync_stop(ty: Seq<char>) -> bool {
    ||| ty == "MAIN"@
    ||| ty == "IF"@
    ||| ty == "WHILE"@
    ||| ty == "DO"@
    ||| ty == "CIN"@
    ||| ty == "COUT"@
    ||| ty == "INT_T"@
    ||| ty == "FLOAT_T"@
    ||| ty == "BOOL_T"@
    ||| ty == "END"@
    ||| ty == "ELSE"@
}

/// Error recovery: skips tokens until just after a `;`, before a token
/// that starts a construct, or to the end.
pub open spec fn sync_pos(ts: Seq<TokenView>, p: int) -> int
    decreases ts.len() - p,
{
    if p < 0 || p >= ts.len() {
        p
    } else if p > 0 && ts[p - 1].token_type == "SYM"@ && ts[p - 1].lexeme == ";"@ {
        p
    } else if is_sync_stop(ts[p].token_type) {
        p
    } else {
        sync_pos(ts, p + 1)
    }
}

pub open spec fn sync(ts: Seq<TokenView>, st: PState) -> PState {
    PState { pos: sync_pos(ts, st.pos), ..st }
}

/// `b` is at or after `a`, and within the tokens.
pub open spec fn moved(ts: Seq<TokenView>, a: PState, b: PState) -> bool {
    a.pos <= b.pos <= ts.len()
}

pub open spec fn can_start(ts: Seq<TokenView>, p: int) -> bool {
    ||| cur_is(ts, p, "IF"@)
    ||| cur_is(ts, p, "WHILE"@)
    ||| cur_is(ts, p, "DO"@)
    ||| cur_is(ts, p, "CIN"@)
    ||| cur_is(ts, p, "COUT"@)
    ||| cur_is(ts, p, "ID"@)
}

/// `label(op)`
pub open spec fn paren(label: Seq<char>, op: Seq<char>) -> Seq<char> {
    label + "("@ + op + ")"@
}

/// A node at token `t` whose children are `a` and `b`.
pub open spec fn binary(label: Seq<char>, t: TokenView, a: NodeView, b: NodeView) -> NodeView {
    with_child(with_child(leaf_at(label, t.line, t.column), a), b)
}

/// A node at token `t` whose only child is `a`.
pub open spec fn unary(label: Seq<char>, t: TokenView, a: NodeView) -> NodeView {
    with_child(leaf_at(label, t.line, t.column), a)
}

pub open spec fn is_inc_dec(ts: Seq<TokenView>, p: int) -> bool {
    cur_is_lex(ts, p, "OP"@, "++"@) || cur_is_lex(ts, p, "OP"@, "--"@)
}

// ----------------------------------------------------------------------------
// Expressions

pub open spec fn p_expression(ts: Seq<TokenView>, st: PState) -> (NodeView, PState)
    decreases ts.len() - st.pos, 20int,
{
    p_or(ts, st)
}

pub open spec fn p_or(ts: Seq<TokenView>, st: PState) -> (NodeView, PState)
    decreases ts.len() - st.pos, 19int,
{
    let (l, st1) = p_and(ts, st);
    if !moved(ts, st, st1) {
        (l, st1)
    } else {
        or_loop(ts, l, st1)
    }
}

pub open spec fn or_loop(ts: Seq<TokenView>, node: NodeView, st: PState) -> (NodeView, PState)
    decreases ts.len() - st.pos, 18int,
{
    if st.pos >= 0 && cur_is_lex(ts, st.pos, "OP"@, "||"@) {
        let t = ts[st.pos];
        let (r, st2) = p_and(ts, adv(ts, st));
        let n = binary("LogicalOr"@, t, node, r);
        if !moved(ts, adv(ts, st), st2) {
            (n, st2)
        } else {
            or_loop(ts, n, st2)
        }
    } else {
        (node, st)
    }
}

pub open spec fn p_and(ts: Seq<TokenView>, st: PState) -> (NodeView, PState)
    decreases ts.len() - st.pos, 17int,
{
    let (l, st1) = p_relational(ts, st);
    if !moved(ts, st, st1) {
        (l, st1)
    } else {
        and_loop(ts, l, st1)
    }
}

pub open spec fn and_loop(ts: Seq<TokenView>, node: NodeView, st: PState) -> (NodeView, PState)
    decreases ts.len() - st.pos, 16int,
{
    if st.pos >= 0 && cur_is_lex(ts, st.pos, "OP"@, "&&"@) {
        let t = ts[st.pos];
        let (r, st2) = p_relational(ts, adv(ts, st));
        let n = binary("LogicalAnd"@, t, node, r);
        if !moved(ts, adv(ts, st), st2) {
            (n, st2)
        } else {
            and_loop(ts, n, st2)
        }
    } else {
        (node, st)
    }
}

pub open spec fn p_relational(ts: Seq<TokenView>, st: PState) -> (NodeView, PState)
    decreases ts.len() - st.pos, 15int,
{
    let (l, st1) = p_simple(ts, st);
    if !moved(ts, st, st1) {
        (l, st1)
    } else if cur_is(ts, st1.pos, "REL"@) {
        let t = ts[st1.pos];
        let (r, st2) = p_simple(ts, adv(ts, st1));
        (binary(paren("Relational"@, t.lexeme), t, l, r), st2)
    } else {
        (l, st1)
    }
}

pub open spec fn p_simple(ts: Seq<TokenView>, st: PState) -> (NodeView, PState)
    decreases ts.len() - st.pos, 14int,
{
    let (l, st1) = p_term(ts, st);
    if !moved(ts, st, st1) {
        (l, st1)
    } else {
        simple_loop(ts, l, st1)
    }
}

pub open spec fn simple_loop(ts: Seq<TokenView>, node: NodeView, st: PState) -> (NodeView, PState)
    decreases ts.len() - st.pos, 13int,
{
    if st.pos >= 0 && (cur_is_lex(ts, st.pos, "ARIT"@, "+"@) || cur_is_lex(ts, st.pos, "ARIT"@, "-"@)) {
        let t = ts[st.pos];
        let (r, st2) = p_term(ts, adv(ts, st));
        let n = binary(paren("AddOp"@, t.lexeme), t, node, r);
        if !moved(ts, adv(ts, st), st2) {
            (n, st2)
        } else {
            simple_loop(ts, n, st2)
        }
    } else if st.pos >= 0 && is_inc_dec(ts, st.pos) {
        let t = ts[st.pos];
        simple_loop(ts, unary(paren("UnaryOp"@, t.lexeme), t, node), adv(ts, st))
    } else {
        (node, st)
    }
}

pub open spec fn is_mul_op(ts: Seq<TokenView>, p: int) -> bool {
    cur_is_lex(ts, p, "ARIT"@, "*"@) || cur_is_lex(ts, p, "ARIT"@, "/"@) || cur_is_lex(ts, p, "ARIT"@, "%"@)
}

pub open spec fn p_term(ts: Seq<TokenView>, st: PState) -> (NodeView, PState)
    decreases ts.len() - st.pos, 12int,
{
    let (l, st1) = p_factor(ts, st);
    if !moved(ts, st, st1) {
        (l, st1)
    } else {
        term_loop(ts, l, st1)
    }
}

pub open spec fn term_loop(ts: Seq<TokenView>, node: NodeView, st: PState) -> (NodeView, PState)
    decreases ts.len() - st.pos, 11int,
{
    if st.pos >= 0 && is_mul_op(ts, st.pos) {
        let t = ts[st.pos];
        let (r, st2) = p_factor(ts, adv(ts, st));
        let n = binary(paren("MulOp"@, t.lexeme), t, node, r);
        if !moved(ts, adv(ts, st), st2) {
            (n, st2)
        } else {
            term_loop(ts, n, st2)
        }
    } else {
        (node, st)
    }
}

pub open spec fn p_factor(ts: Seq<TokenView>, st: PState) -> (NodeView, PState)
    decreases ts.len() - st.pos, 10int,
{
    let (l, st1) = p_power(ts, st);
    if !moved(ts, st, st1) {
        (l, st1)
    } else {
        factor_loop(ts, l, st1)
    }
}

pub open spec fn factor_loop(ts: Seq<TokenView>, node: NodeView, st: PState) -> (NodeView, PState)
    decreases ts.len() - st.pos, 9int,
{
    if st.pos >= 0 && cur_is_lex(ts, st.pos, "ARIT"@, "^"@) {
        let t = ts[st.pos];
        let (r, st2) = p_power(ts, adv(ts, st));
        let n = binary("Power"@, t, node, r);
        if !moved(ts, adv(ts, st), st2) {
            (n, st2)
        } else {
            factor_loop(ts, n, st2)
        }
    } else {
        (node, st)
    }
}

pub open spec fn p_power(ts: Seq<TokenView>, st: PState) -> (NodeView, PState)
    decreases ts.len() - st.pos, 8int,
{
    if st.pos >= 0 && is_inc_dec(ts, st.pos) {
        let t = ts[st.pos];
        let (c, st2) = p_power(ts, adv(ts, st));
        (unary(paren("Prefix"@, t.lexeme), t, c), st2)
    } else if st.pos >= 0 && cur_is_lex(ts, st.pos, "REL"@, "!"@) {
        let t = ts[st.pos];
        let (c, st2) = p_power(ts, adv(ts, st));
        (unary("Not"@, t, c), st2)
    } else {
        p_component(ts, st)
    }
}

/// The node for the primary token `t`, and the state after it.
pub open spec fn primary(ts: Seq<TokenView>, st: PState) -> (NodeView, PState) {
    let t = ts[st.pos];
    let ty = t.token_type;
    if ty == "INT"@ || ty == "FLOAT"@ {
        (leaf_at("number: "@ + t.lexeme, t.line, t.column), adv(ts, st))
    } else if ty == "TRUE"@ || ty == "FALSE"@ {
        (leaf_at("bool: "@ + t.lexeme, t.line, t.column), adv(ts, st))
    } else if ty == "ID"@ {
        (leaf_at("id: "@ + t.lexeme, t.line, t.column), adv(ts, st))
    } else if ty == "STRING"@ {
        (leaf_at("string: "@ + t.lexeme, t.line, t.column), adv(ts, st))
    } else {
        (
            leaf_at("ErrorComponent"@, t.line, t.column),
            adv(ts, report(ts, st, "Unexpected component '"@ + t.lexeme + "'"@)),
        )
    }
}

pub open spec fn p_component(ts: Seq<TokenView>, st: PState) -> (NodeView, PState)
    decreases ts.len() - st.pos, 7int,
{
    if st.pos >= 0 && cur_is_lex(ts, st.pos, "SYM"@, "("@) {
        let (n, st2) = p_expression(ts, adv(ts, st));
        if cur_is_lex(ts, st2.pos, "SYM"@, ")"@) {
            (n, adv(ts, st2))
        } else {
            (n, report(ts, st2, "Expected ')'"@))
        }
    } else if 0 <= st.pos < ts.len() {
        let (n, st1) = primary(ts, st);
        if is_inc_dec(ts, st1.pos) {
            let o = ts[st1.pos];
            (unary(paren("Postfix"@, o.lexeme), o, n), adv(ts, st1))
        } else {
            (n, st1)
        }
    } else {
        (leaf_at("Empty"@, 0, 0), report(ts, st, "Unexpected end of expression"@))
    }
}

// ----------------------------------------------------------------------------
// Statements

/// A statement placed at the position of its first token.
pub open spec fn p_statement(ts: Seq<TokenView>, st: PState) -> (NodeView, PState)
    decreases ts.len() - st.pos, 3int,
{
    if 0 <= st.pos < ts.len() {
        let t = ts[st.pos];
        let l = Some(t.line as usize);
        let c = Some(t.column as usize);
        let ty = t.token_type;
        if ty == "IF"@ {
            let (n, s) = p_selection(ts, st);
            (placed_opt(n, l, c), s)
        } else if ty == "WHILE"@ {
            let (n, s) = p_iteration(ts, st);
            (placed_opt(n, l, c), s)
        } else if ty == "DO"@ {
            let (n, s) = p_repetition(ts, st);
            (placed_opt(n, l, c), s)
        } else if ty == "CIN"@ {
            let (n, s) = p_input(ts, st);
            (placed_opt(n, l, c), s)
        } else if ty == "COUT"@ {
            let (n, s) = p_output(ts, st);
            (placed_opt(n, l, c), s)
        } else if ty == "ID"@ {
            let (n, s) = p_id_statement(ts, st);
            (placed_opt(n, l, c), s)
        } else {
            (
                leaf_at("UnknownStatement"@, t.line, t.column),
                adv(ts, report(ts, st, "Unexpected token '"@ + t.lexeme + "' in statement"@)),
            )
        }
    } else {
        (leaf("EmptyStatement"@), st)
    }
}

/// Statements while `more` holds and one can start.
pub open spec fn block_continues(ts: Seq<TokenView>, p: int, kind: int) -> bool {
    0 <= p < ts.len() && can_start(ts, p) && if kind == 0 {
        // then-block
        !cur_is(ts, p, "ELSE"@) && !cur_is(ts, p, "END"@)
    } else if kind == 1 {
        // up to `end`
        !cur_is(ts, p, "END"@)
    } else if kind == 2 {
        // up to `}`
        !cur_is_lex(ts, p, "SYM"@, "}"@)
    } else {
        // up to `while` or `until`
        !cur_is(ts, p, "WHILE"@) && !cur_is(ts, p, "UNTIL"@)
    }
}

/// Appends statements to `block` while [`block_continues`] of `kind`.
pub open spec fn block_loop(ts: Seq<TokenView>, block: NodeView, st: PState, kind: int) -> (
    NodeView,
    PState,
)
    decreases ts.len() - st.pos, 4int,
{
    if block_continues(ts, st.pos, kind) {
        let (s, st1) = p_statement(ts, st);
        let b = with_child(block, s);
        if st1.pos <= st.pos || st1.pos > ts.len() {
            (b, st1)
        } else {
            block_loop(ts, b, st1, kind)
        }
    } else {
        (block, st)
    }
}

/// Consumes a `;` if there is one.
pub open spec fn opt_semicolon(ts: Seq<TokenView>, st: PState) -> PState {
    if cur_is_lex(ts, st.pos, "SYM"@, ";"@) {
        adv(ts, st)
    } else {
        st
    }
}

/// Consumes a token of type `ty`, or reports `msg` and recovers.
pub open spec fn expect_or_sync(ts: Seq<TokenView>, st: PState, ty: Seq<char>, msg: Seq<char>) -> PState {
    if cur_is(ts, st.pos, ty) {
        adv(ts, st)
    } else {
        sync(ts, report(ts, st, msg))
    }
}

/// Consumes the symbol `sym`, or reports `msg` and recovers.
pub open spec fn expect_sym_or_sync(ts: Seq<TokenView>, st: PState, sym: Seq<char>, msg: Seq<char>) -> PState {
    if cur_is_lex(ts, st.pos, "SYM"@, sym) {
        adv(ts, st)
    } else {
        sync(ts, report(ts, st, msg))
    }
}

pub open spec fn p_selection(ts: Seq<TokenView>, st: PState) -> (NodeView, PState)
    decreases ts.len() - st.pos, 2int,
{
    let (l, c) = loc(ts, st.pos);
    let st1 = adv(ts, st);
    let node1 = with_child(leaf_at("Selection"@, l, c), leaf_at("if"@, l, c));
    let (cond, st2) = p_expression(ts, st1);
    let node2 = with_child(node1, cond);
    let st3 = if cur_is(ts, st2.pos, "THEN"@) {
        adv(ts, st2)
    } else {
        report(ts, st2, "Expected 'then' after condition"@)
    };
    if !(st.pos < st1.pos && moved(ts, st1, st2)) {
        (node2, st3)
    } else {
        let (then_block, st4) = block_loop(ts, leaf("ThenBlock"@), st3, 0);
        let node3 = with_child(node2, then_block);
        if !moved(ts, st3, st4) {
            (node3, st4)
        } else {
            let (node4, st5) = if cur_is(ts, st4.pos, "ELSE"@) {
                let (else_block, st6) = block_loop(ts, leaf("ElseBlock"@), adv(ts, st4), 1);
                (with_child(node3, else_block), st6)
            } else {
                (node3, st4)
            };
            let st7 = expect_or_sync(ts, st5, "END"@, "Expected 'end' after selection"@);
            (node4, opt_semicolon(ts, st7))
        }
    }
}

pub open spec fn p_iteration(ts: Seq<TokenView>, st: PState) -> (NodeView, PState)
    decreases ts.len() - st.pos, 2int,
{
    let (l, c) = loc(ts, st.pos);
    let st1 = adv(ts, st);
    let node1 = with_child(leaf_at("Iteration"@, l, c), leaf_at("while"@, l, c));
    let (cond, st2) = p_expression(ts, st1);
    let node2 = with_child(node1, cond);
    if !(st.pos < st1.pos && moved(ts, st1, st2)) {
        (node2, st2)
    } else if cur_is_lex(ts, st2.pos, "SYM"@, "{"@) {
        let (body, st4) = block_loop(ts, leaf("WhileBody"@), adv(ts, st2), 2);
        let st5 = expect_sym_or_sync(ts, st4, "}"@, "Expected '}' after while body"@);
        (with_child(node2, body), opt_semicolon(ts, st5))
    } else {
        let (body, st4) = block_loop(ts, leaf("WhileBody"@), st2, 1);
        let st5 = expect_or_sync(
            ts,
            st4,
            "END"@,
            "Expected 'end' or '{...}' body after while loop"@,
        );
        (with_child(node2, body), opt_semicolon(ts, st5))
    }
}

pub open spec fn p_repetition(ts: Seq<TokenView>, st: PState) -> (NodeView, PState)
    decreases ts.len() - st.pos, 2int,
{
    let (l, c) = loc(ts, st.pos);
    let st1 = adv(ts, st);
    let node1 = with_child(leaf_at("Repetition"@, l, c), leaf_at("do"@, l, c));
    if !(st.pos < st1.pos) {
        (node1, st1)
    } else {
        let (body, st4) = if cur_is_lex(ts, st1.pos, "SYM"@, "{"@) {
            let (b, s) = block_loop(ts, leaf("DoBody"@), adv(ts, st1), 2);
            (b, expect_sym_or_sync(ts, s, "}"@, "Expected '}' after do body"@))
        } else {
            block_loop(ts, leaf("DoBody"@), st1, 3)
        };
        let node2 = with_child(node1, body);
        let (node3, st5) = if cur_is(ts, st4.pos, "WHILE"@) || cur_is(ts, st4.pos, "UNTIL"@) {
            let t = ts[st4.pos];
            (with_child(node2, leaf_at(t.lexeme, t.line, t.column)), adv(ts, st4))
        } else {
            (node2, report(ts, st4, "Expected 'while' or 'until' after do body"@))
        };
        let (cond, st6) = p_expression(ts, st5);
        (with_child(node3, cond), opt_semicolon(ts, st6))
    }
}

/// `id ++ ;`, `id -- ;` or `id = expression-statement`.
pub open spec fn p_id_statement(ts: Seq<TokenView>, st: PState) -> (NodeView, PState) {
    let t = ts[st.pos];
    let st1 = adv(ts, st);
    let id = leaf_at("id: "@ + t.lexeme, t.line, t.column);
    if is_inc_dec(ts, st1.pos) {
        let o = ts[st1.pos];
        let st2 = adv(ts, st1);
        let node = with_child(
            leaf_at("ExpressionStatement"@, t.line, t.column),
            unary(paren("Postfix"@, o.lexeme), o, id),
        );
        if cur_is_lex(ts, st2.pos, "SYM"@, ";"@) {
            (node, adv(ts, st2))
        } else {
            (node, report(ts, st2, "Expected ';' after expression"@))
        }
    } else {
        let node = with_child(leaf_at("Assignment"@, t.line, t.column), id);
        let st2 = if cur_is(ts, st1.pos, "ASIG"@) {
            adv(ts, st1)
        } else {
            report(ts, st1, "Expected '=' in assignment"@)
        };
        let (e, st3) = p_sent_expression(ts, st2);
        (with_child(node, e), st3)
    }
}

/// `;` alone, or an expression followed by `;`.
pub open spec fn p_sent_expression(ts: Seq<TokenView>, st: PState) -> (NodeView, PState) {
    let node = leaf("ExpressionStatement"@);
    if cur_is_lex(ts, st.pos, "SYM"@, ";"@) {
        (with_child(node, leaf("empty"@)), adv(ts, st))
    } else {
        let (e, st1) = p_expression(ts, st);
        (with_child(node, e), expect_sym_or_sync(ts, st1, ";"@, "Expected ';' after expression"@))
    }
}

pub open spec fn p_input(ts: Seq<TokenView>, st: PState) -> (NodeView, PState) {
    let (l, c) = loc(ts, st.pos);
    let st1 = adv(ts, st);
    let node = leaf_at("Input"@, l, c);
    let st2 = if cur_is_lex(ts, st1.pos, "OP"@, ">>"@) {
        adv(ts, st1)
    } else {
        report(ts, st1, "Expected '>>' after cin"@)
    };
    let (node2, st3) = if 0 <= st2.pos < ts.len() {
        let t = ts[st2.pos];
        if t.token_type == "ID"@ {
            (with_child(node, leaf_at("id: "@ + t.lexeme, t.line, t.column)), adv(ts, st2))
        } else {
            (node, report(ts, st2, "Expected identifier after cin >>"@))
        }
    } else {
        (node, st2)
    };
    let st4 = if cur_is_lex(ts, st3.pos, "SYM"@, ";"@) {
        adv(ts, st3)
    } else {
        report(ts, st3, "Expected ';' after input"@)
    };
    (node2, st4)
}

pub open spec fn p_output_operand(ts: Seq<TokenView>, st: PState) -> (NodeView, PState) {
    if cur_is(ts, st.pos, "STRING"@) {
        let t = ts[st.pos];
        (leaf_at("string: "@ + t.lexeme, t.line, t.column), adv(ts, st))
    } else {
        p_expression(ts, st)
    }
}

/// Further `<< operand` pieces of an output chain.
pub open spec fn chain_loop(ts: Seq<TokenView>, chain: NodeView, st: PState) -> (NodeView, PState)
    decreases ts.len() - st.pos,
{
    if st.pos >= 0 && cur_is_lex(ts, st.pos, "OP"@, "<<"@) {
        let (o, st2) = p_output_operand(ts, adv(ts, st));
        let c = with_child(chain, o);
        if !moved(ts, adv(ts, st), st2) {
            (c, st2)
        } else {
            chain_loop(ts, c, st2)
        }
    } else {
        (chain, st)
    }
}

pub open spec fn p_output(ts: Seq<TokenView>, st: PState) -> (NodeView, PState) {
    let (l, c) = loc(ts, st.pos);
    let st1 = adv(ts, st);
    let node = leaf_at("Output"@, l, c);
    let st2 = if cur_is_lex(ts, st1.pos, "OP"@, "<<"@) {
        adv(ts, st1)
    } else {
        report(ts, st1, "Expected '<<' after cout"@)
    };
    let (first, st3) = p_output_operand(ts, st2);
    if !moved(ts, st2, st3) {
        (with_child(node, with_child(leaf("OutputChain"@), first)), st3)
    } else {
        let (chain, st4) = chain_loop(ts, with_child(leaf("OutputChain"@), first), st3);
        (with_child(node, chain), opt_semicolon(ts, st4))
    }
}

// ----------------------------------------------------------------------------
// Program and declarations

pub open spec fn is_type_keyword(ts: Seq<TokenView>, p: int) -> bool {
    cur_is(ts, p, "INT_T"@) || cur_is(ts, p, "FLOAT_T"@) || cur_is(ts, p, "BOOL_T"@)
}

/// Further `, id` pieces of a declaration.
pub open spec fn ids_loop(ts: Seq<TokenView>, ids: NodeView, st: PState) -> (NodeView, PState)
    decreases ts.len() - st.pos,
{
    if st.pos >= 0 && cur_is_lex(ts, st.pos, "SYM"@, ","@) {
        let st1 = adv(ts, st);
        if cur_is(ts, st1.pos, "ID"@) {
            let t = ts[st1.pos];
            ids_loop(ts, with_child(ids, leaf_at(t.lexeme, t.line, t.column)), adv(ts, st1))
        } else {
            (ids, sync(ts, report(ts, st1, "Expected identifier after comma"@)))
        }
    } else {
        (ids, st)
    }
}

#[verifier::opaque]
pub open spec fn p_variable_declaration(ts: Seq<TokenView>, st: PState) -> (NodeView, PState) {
    let (dl, dc) = loc(ts, st.pos);
    let t = ts[st.pos];
    let st1 = adv(ts, st);
    let node = with_child(
        leaf_at("VariableDeclaration"@, dl, dc),
        leaf_at("type: "@ + t.lexeme, t.line, t.column),
    );
    let (ids0, st2) = if cur_is(ts, st1.pos, "ID"@) {
        let i = ts[st1.pos];
        (with_child(leaf("Identifiers"@), leaf_at(i.lexeme, i.line, i.column)), adv(ts, st1))
    } else {
        (leaf("Identifiers"@), report(ts, st1, "Expected identifier in declaration"@))
    };
    let (ids, st3) = ids_loop(ts, ids0, st2);
    (with_child(node, ids), expect_sym_or_sync(ts, st3, ";"@, "Expected ';' after declaration"@))
}

/// Declarations and statements up to the closing `}`; anything else is
/// reported and skipped.
pub open spec fn decl_loop(ts: Seq<TokenView>, node: NodeView, st: PState) -> (NodeView, PState)
    decreases ts.len() - st.pos,
{
    if 0 <= st.pos < ts.len() && !cur_is_lex(ts, st.pos, "SYM"@, "}"@) {
        let (n2, st1) = if is_type_keyword(ts, st.pos) {
            let (d, s) = p_variable_declaration(ts, st);
            (with_child(node, d), s)
        } else if can_start(ts, st.pos) {
            let (d, s) = p_statement(ts, st);
            (with_child(node, d), s)
        } else {
            (
                node,
                adv(
                    ts,
                    report(
                        ts,
                        st,
                        "Unexpected token '"@ + ts[st.pos].lexeme + "' in declaration list"@,
                    ),
                ),
            )
        };
        if st1.pos <= st.pos || st1.pos > ts.len() {
            (n2, st1)
        } else {
            decl_loop(ts, n2, st1)
        }
    } else {
        (node, st)
    }
}

pub open spec fn p_program(ts: Seq<TokenView>, st: PState) -> (NodeView, PState) {
    let (pl, pc) = loc(ts, st.pos);
    let node = leaf_at("MainProgram"@, pl, pc);
    let (node1, st1) = if cur_is(ts, st.pos, "MAIN"@) {
        let t = ts[st.pos];
        (with_child(node, leaf_at("main"@, t.line, t.column)), adv(ts, st))
    } else {
        (node, report(ts, st, "Expected 'main'"@))
    };
    if cur_is_lex(ts, st1.pos, "SYM"@, "{"@) {
        let (decls, st2) = decl_loop(ts, leaf("DeclarationList"@), adv(ts, st1));
        let node2 = with_child(node1, decls);
        if cur_is_lex(ts, st2.pos, "SYM"@, "}"@) {
            (node2, adv(ts, st2))
        } else {
            (node2, report(ts, st2, "Expected '}' at end of program"@))
        }
    } else {
        (node1, sync(ts, report(ts, st1, "Expected '{' after main"@)))
    }
}

/// A `Program` root whose only child is the program read from `st` on, and
/// the state after it.
pub open spec fn parse_from(ts: Seq<TokenView>, st: PState) -> (NodeView, PState) {
    let (prog, st1) = p_program(ts, st);
    (with_child(leaf("Program"@), prog), st1)
}

/// The whole tree and the errors reported, starting from the first token
/// with no errors.
pub open spec fn parse_tokens(ts: Seq<TokenView>) -> (NodeView, Seq<SyntaxErrorView>) {
    let (root, st) = parse_from(ts, PState { pos: 0, errors: Seq::empty() });
    (root, st.errors)
}

} // verus!
