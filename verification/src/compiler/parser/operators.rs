//! How the parser builds nodes from their parts, in the order of the source:
//! the node of a two-operand operator has the left operand as its first
//! child and the right operand as its second, at every level of precedence,
//! and an assignment has its target first and its value second.
use vstd::prelude::*;
use crate::compiler::parser::grammar::{
    PState, adv, and_loop, binary, moved, cur_is, cur_is_lex, factor_loop, is_inc_dec, is_mul_op, or_loop, p_and,
    p_component, p_factor, p_or, p_power, p_relational, p_simple, p_term, primary,
    simple_loop, term_loop, p_expression, p_statement, p_id_statement, p_sent_expression,
};
use crate::models::ast::{NodeView, leaf, leaf_at, placed_opt, with_child};
use crate::models::token::TokenView;

verus! {

/// A number literal token.
pub open spec fn is_number(t: TokenView) -> bool {
    t.token_type == "INT"@ || t.token_type == "FLOAT"@
}

/// The tree of a number literal.
pub open spec fn number_node(t: TokenView) -> NodeView {
    leaf_at("number: "@ + t.lexeme, t.line, t.column)
}

/// The node of the operator token `t` over `a` then `b`.
pub open spec fn operator_node(label: Seq<char>, t: TokenView, a: NodeView, b: NodeView) -> NodeView {
    NodeView {
        label,
        children: seq![a, b],
        line: Some(t.line as usize),
        column: Some(t.column as usize),
    }
}

pub open spec fn at(p: int, e: Seq<crate::models::error::SyntaxErrorView>) -> PState {
    PState { pos: p, errors: e }
}

/// Nothing at `q` continues a factor (`^`, `++`, `--`).
pub open spec fn ends_factor(ts: Seq<TokenView>, q: int) -> bool {
    !cur_is_lex(ts, q, "ARIT"@, "^"@) && !is_inc_dec(ts, q)
}

/// Nothing at `q` continues a term.
pub open spec fn ends_term(ts: Seq<TokenView>, q: int) -> bool {
    ends_factor(ts, q) && !is_mul_op(ts, q)
}

/// Nothing at `q` continues a sum.
pub open spec fn ends_sum(ts: Seq<TokenView>, q: int) -> bool {
    ends_term(ts, q) && !cur_is_lex(ts, q, "ARIT"@, "+"@) && !cur_is_lex(ts, q, "ARIT"@, "-"@)
}

/// Nothing at `q` continues a comparison.
pub open spec fn ends_comparison(ts: Seq<TokenView>, q: int) -> bool {
    ends_sum(ts, q) && !cur_is(ts, q, "REL"@)
}

/// Nothing at `q` continues a conjunction.
pub open spec fn ends_conjunction(ts: Seq<TokenView>, q: int) -> bool {
    ends_comparison(ts, q) && !cur_is_lex(ts, q, "OP"@, "&&"@)
}

proof fn lemma_op_literals()
    ensures
        "^"@ =~= seq!['^'],
        "*"@ =~= seq!['*'],
        "/"@ =~= seq!['/'],
        "%"@ =~= seq!['%'],
        "+"@ =~= seq!['+'],
        "-"@ =~= seq!['-'],
        "++"@ =~= seq!['+', '+'],
        "--"@ =~= seq!['-', '-'],
        "&&"@ =~= seq!['&', '&'],
        "||"@ =~= seq!['|', '|'],
{
    reveal_strlit("^");
    reveal_strlit("*");
    reveal_strlit("/");
    reveal_strlit("%");
    reveal_strlit("+");
    reveal_strlit("-");
    reveal_strlit("++");
    reveal_strlit("--");
    reveal_strlit("&&");
    reveal_strlit("||");
}

proof fn lemma_ops_differ()
    ensures
        "^"@ != "*"@,
        "^"@ != "/"@,
        "^"@ != "%"@,
        "^"@ != "+"@,
        "^"@ != "-"@,
        "^"@ != "++"@,
        "^"@ != "--"@,
        "^"@ != "&&"@,
        "^"@ != "||"@,
        "*"@ != "/"@,
        "*"@ != "%"@,
        "*"@ != "+"@,
        "*"@ != "-"@,
        "*"@ != "++"@,
        "*"@ != "--"@,
        "*"@ != "&&"@,
        "*"@ != "||"@,
        "/"@ != "%"@,
        "/"@ != "+"@,
        "/"@ != "-"@,
        "/"@ != "++"@,
        "/"@ != "--"@,
        "/"@ != "&&"@,
        "/"@ != "||"@,
        "%"@ != "+"@,
        "%"@ != "-"@,
        "%"@ != "++"@,
        "%"@ != "--"@,
        "%"@ != "&&"@,
        "%"@ != "||"@,
        "+"@ != "-"@,
        "+"@ != "++"@,
        "+"@ != "--"@,
        "+"@ != "&&"@,
        "+"@ != "||"@,
        "-"@ != "++"@,
        "-"@ != "--"@,
        "-"@ != "&&"@,
        "-"@ != "||"@,
        "++"@ != "--"@,
        "++"@ != "&&"@,
        "++"@ != "||"@,
        "--"@ != "&&"@,
        "--"@ != "||"@,
        "&&"@ != "||"@,
{
    lemma_op_literals();
    assert("^"@.len() == 1);
    assert("*"@.len() == 1);
    assert("/"@.len() == 1);
    assert("%"@.len() == 1);
    assert("+"@.len() == 1);
    assert("-"@.len() == 1);
    assert("++"@.len() == 2);
    assert("--"@.len() == 2);
    assert("&&"@.len() == 2);
    assert("||"@.len() == 2);
    assert("^"@[0] == '^');
    assert("*"@[0] == '*');
    assert("/"@[0] == '/');
    assert("%"@[0] == '%');
    assert("+"@[0] == '+');
    assert("-"@[0] == '-');
    assert("++"@[0] == '+');
    assert("--"@[0] == '-');
    assert("&&"@[0] == '&');
    assert("||"@[0] == '|');
}

proof fn lemma_type_literals()
    ensures
        "INT"@ =~= seq!['I', 'N', 'T'],
        "FLOAT"@ =~= seq!['F', 'L', 'O', 'A', 'T'],
        "OP"@ =~= seq!['O', 'P'],
        "REL"@ =~= seq!['R', 'E', 'L'],
        "SYM"@ =~= seq!['S', 'Y', 'M'],
        "ARIT"@ =~= seq!['A', 'R', 'I', 'T'],
        "TRUE"@ =~= seq!['T', 'R', 'U', 'E'],
        "FALSE"@ =~= seq!['F', 'A', 'L', 'S', 'E'],
        "ID"@ =~= seq!['I', 'D'],
        "STRING"@ =~= seq!['S', 'T', 'R', 'I', 'N', 'G'],
{
    reveal_strlit("INT");
    reveal_strlit("FLOAT");
    reveal_strlit("OP");
    reveal_strlit("REL");
    reveal_strlit("SYM");
    reveal_strlit("ARIT");
    reveal_strlit("TRUE");
    reveal_strlit("FALSE");
    reveal_strlit("ID");
    reveal_strlit("STRING");
}

/// A number that no `++` or `--` follows is an operand of its own.
proof fn lemma_number_power(ts: Seq<TokenView>, p: int, e: Seq<crate::models::error::SyntaxErrorView>)
    requires
        0 <= p < ts.len(),
        is_number(ts[p]),
        !is_inc_dec(ts, p + 1),
    ensures
        p_power(ts, at(p, e)) == (number_node(ts[p]), at(p + 1, e)),
{
    lemma_type_literals();
    assert(!is_inc_dec(ts, p));
    assert(!cur_is_lex(ts, p, "REL"@, "!"@));
    assert(!cur_is_lex(ts, p, "SYM"@, "("@));
    assert(primary(ts, at(p, e)) == (number_node(ts[p]), at(p + 1, e)));
    assert(p_component(ts, at(p, e)) == (number_node(ts[p]), at(p + 1, e)));
}

/// A number followed by nothing that binds to it is a factor on its own.
proof fn lemma_number_factor(ts: Seq<TokenView>, p: int, e: Seq<crate::models::error::SyntaxErrorView>)
    requires
        0 <= p < ts.len(),
        is_number(ts[p]),
        ends_factor(ts, p + 1),
    ensures
        p_power(ts, at(p, e)) == (number_node(ts[p]), at(p + 1, e)),
        p_factor(ts, at(p, e)) == (number_node(ts[p]), at(p + 1, e)),
{
    lemma_type_literals();
    assert(!is_inc_dec(ts, p));
    assert(!cur_is_lex(ts, p, "REL"@, "!"@));
    assert(!cur_is_lex(ts, p, "SYM"@, "("@));
    assert(primary(ts, at(p, e)) == (number_node(ts[p]), at(p + 1, e)));
    assert(p_component(ts, at(p, e)) == (number_node(ts[p]), at(p + 1, e)));
    assert(factor_loop(ts, number_node(ts[p]), at(p + 1, e)) == (number_node(ts[p]), at(p + 1, e)));
}

proof fn lemma_number_term(ts: Seq<TokenView>, p: int, e: Seq<crate::models::error::SyntaxErrorView>)
    requires
        0 <= p < ts.len(),
        is_number(ts[p]),
        ends_term(ts, p + 1),
    ensures
        p_term(ts, at(p, e)) == (number_node(ts[p]), at(p + 1, e)),
{
    lemma_number_factor(ts, p, e);
    assert(term_loop(ts, number_node(ts[p]), at(p + 1, e)) == (number_node(ts[p]), at(p + 1, e)));
}

proof fn lemma_number_sum(ts: Seq<TokenView>, p: int, e: Seq<crate::models::error::SyntaxErrorView>)
    requires
        0 <= p < ts.len(),
        is_number(ts[p]),
        ends_sum(ts, p + 1),
    ensures
        p_simple(ts, at(p, e)) == (number_node(ts[p]), at(p + 1, e)),
{
    lemma_number_term(ts, p, e);
    assert(simple_loop(ts, number_node(ts[p]), at(p + 1, e)) == (number_node(ts[p]), at(p + 1, e)));
}

proof fn lemma_number_comparison(ts: Seq<TokenView>, p: int, e: Seq<crate::models::error::SyntaxErrorView>)
    requires
        0 <= p < ts.len(),
        is_number(ts[p]),
        ends_comparison(ts, p + 1),
    ensures
        p_relational(ts, at(p, e)) == (number_node(ts[p]), at(p + 1, e)),
{
    lemma_number_sum(ts, p, e);
}

proof fn lemma_number_conjunction(ts: Seq<TokenView>, p: int, e: Seq<crate::models::error::SyntaxErrorView>)
    requires
        0 <= p < ts.len(),
        is_number(ts[p]),
        ends_conjunction(ts, p + 1),
    ensures
        p_and(ts, at(p, e)) == (number_node(ts[p]), at(p + 1, e)),
{
    lemma_number_comparison(ts, p, e);
    assert(and_loop(ts, number_node(ts[p]), at(p + 1, e)) == (number_node(ts[p]), at(p + 1, e)));
}

/// `a ^ b` of two numbers: a `Power` node at the `^` with `a` first and `b`
/// second.
pub proof fn lemma_power_operands(ts: Seq<TokenView>, p: int, e: Seq<crate::models::error::SyntaxErrorView>)
    requires
        0 <= p,
        p + 2 < ts.len(),
        is_number(ts[p]),
        cur_is_lex(ts, p + 1, "ARIT"@, "^"@),
        is_number(ts[p + 2]),
        ends_factor(ts, p + 3),
    ensures
        p_factor(ts, at(p, e)) == (
            operator_node("Power"@, ts[p + 1], number_node(ts[p]), number_node(ts[p + 2])),
            at(p + 3, e),
        ),
{
    lemma_type_literals();
    assert(!is_inc_dec(ts, p + 1));
    lemma_number_power(ts, p, e);
    lemma_number_factor(ts, p + 2, e);
    let a = number_node(ts[p]);
    let b = number_node(ts[p + 2]);
    let t = ts[p + 1];
    assert(adv(ts, at(p + 1, e)) == at(p + 2, e));
    let n = binary("Power"@, t, a, b);
    assert(n =~= operator_node("Power"@, t, a, b)) by {
        assert(n.children =~= seq![a, b]);
    }
    assert(moved(ts, at(p + 2, e), at(p + 3, e)));
    assert(factor_loop(ts, n, at(p + 3, e)) == (n, at(p + 3, e)));
    assert(factor_loop(ts, a, at(p + 1, e)) == factor_loop(ts, n, at(p + 3, e)));
    assert(moved(ts, at(p, e), at(p + 1, e)));
}

/// `a * b` (or `/`, `%`) of two numbers: a `MulOp` node at the operator
/// with `a` first and `b` second.
#[verifier::rlimit(50)]
pub proof fn lemma_product_operands(ts: Seq<TokenView>, p: int, e: Seq<crate::models::error::SyntaxErrorView>)
    requires
        0 <= p,
        p + 2 < ts.len(),
        is_number(ts[p]),
        is_mul_op(ts, p + 1),
        is_number(ts[p + 2]),
        ends_term(ts, p + 3),
    ensures
        p_term(ts, at(p, e)) == (
            operator_node(
                "MulOp"@ + "("@ + ts[p + 1].lexeme + ")"@,
                ts[p + 1],
                number_node(ts[p]),
                number_node(ts[p + 2]),
            ),
            at(p + 3, e),
        ),
{
    lemma_type_literals();
    lemma_ops_differ();
    assert(ends_factor(ts, p + 1));
    lemma_number_factor(ts, p, e);
    lemma_number_factor(ts, p + 2, e);
    let a = number_node(ts[p]);
    let b = number_node(ts[p + 2]);
    let t = ts[p + 1];
    let label = "MulOp"@ + "("@ + t.lexeme + ")"@;
    assert(adv(ts, at(p + 1, e)) == at(p + 2, e));
    let n = binary(label, t, a, b);
    assert(n =~= operator_node(label, t, a, b)) by {
        assert(n.children =~= seq![a, b]);
    }
    assert(term_loop(ts, n, at(p + 3, e)) == (n, at(p + 3, e)));
    assert(term_loop(ts, a, at(p + 1, e)) == term_loop(ts, n, at(p + 3, e)));
}

/// `a + b` (or `-`) of two numbers: an `AddOp` node at the operator with
/// `a` first and `b` second.
#[verifier::rlimit(50)]
pub proof fn lemma_sum_operands(ts: Seq<TokenView>, p: int, e: Seq<crate::models::error::SyntaxErrorView>)
    requires
        0 <= p,
        p + 2 < ts.len(),
        is_number(ts[p]),
        cur_is_lex(ts, p + 1, "ARIT"@, "+"@) || cur_is_lex(ts, p + 1, "ARIT"@, "-"@),
        is_number(ts[p + 2]),
        ends_sum(ts, p + 3),
    ensures
        p_simple(ts, at(p, e)) == (
            operator_node(
                "AddOp"@ + "("@ + ts[p + 1].lexeme + ")"@,
                ts[p + 1],
                number_node(ts[p]),
                number_node(ts[p + 2]),
            ),
            at(p + 3, e),
        ),
{
    lemma_type_literals();
    lemma_ops_differ();
    assert(ends_term(ts, p + 1));
    lemma_number_term(ts, p, e);
    lemma_number_term(ts, p + 2, e);
    let a = number_node(ts[p]);
    let b = number_node(ts[p + 2]);
    let t = ts[p + 1];
    let label = "AddOp"@ + "("@ + t.lexeme + ")"@;
    assert(adv(ts, at(p + 1, e)) == at(p + 2, e));
    let n = binary(label, t, a, b);
    assert(n =~= operator_node(label, t, a, b)) by {
        assert(n.children =~= seq![a, b]);
    }
    assert(simple_loop(ts, n, at(p + 3, e)) == (n, at(p + 3, e)));
    assert(simple_loop(ts, a, at(p + 1, e)) == simple_loop(ts, n, at(p + 3, e)));
}

/// `a < b` (any comparison) of two numbers: a `Relational` node at the
/// operator with `a` first and `b` second.
#[verifier::rlimit(50)]
pub proof fn lemma_comparison_operands(ts: Seq<TokenView>, p: int, e: Seq<crate::models::error::SyntaxErrorView>)
    requires
        0 <= p,
        p + 2 < ts.len(),
        is_number(ts[p]),
        cur_is(ts, p + 1, "REL"@),
        is_number(ts[p + 2]),
        ends_sum(ts, p + 3),
    ensures
        p_relational(ts, at(p, e)) == (
            operator_node(
                "Relational"@ + "("@ + ts[p + 1].lexeme + ")"@,
                ts[p + 1],
                number_node(ts[p]),
                number_node(ts[p + 2]),
            ),
            at(p + 3, e),
        ),
{
    lemma_type_literals();
    lemma_ops_differ();
    assert(ends_sum(ts, p + 1));
    lemma_number_sum(ts, p, e);
    lemma_number_sum(ts, p + 2, e);
    let a = number_node(ts[p]);
    let b = number_node(ts[p + 2]);
    let t = ts[p + 1];
    let label = "Relational"@ + "("@ + t.lexeme + ")"@;
    assert(adv(ts, at(p + 1, e)) == at(p + 2, e));
    let n = binary(label, t, a, b);
    assert(n =~= operator_node(label, t, a, b)) by {
        assert(n.children =~= seq![a, b]);
    }
}

/// `a && b` of two numbers: a `LogicalAnd` node at the `&&` with `a` first
/// and `b` second.
#[verifier::rlimit(50)]
pub proof fn lemma_conjunction_operands(ts: Seq<TokenView>, p: int, e: Seq<crate::models::error::SyntaxErrorView>)
    requires
        0 <= p,
        p + 2 < ts.len(),
        is_number(ts[p]),
        cur_is_lex(ts, p + 1, "OP"@, "&&"@),
        is_number(ts[p + 2]),
        ends_conjunction(ts, p + 3),
    ensures
        p_and(ts, at(p, e)) == (
            operator_node("LogicalAnd"@, ts[p + 1], number_node(ts[p]), number_node(ts[p + 2])),
            at(p + 3, e),
        ),
{
    lemma_type_literals();
    lemma_ops_differ();
    assert(ends_comparison(ts, p + 1));
    lemma_number_comparison(ts, p, e);
    lemma_number_comparison(ts, p + 2, e);
    let a = number_node(ts[p]);
    let b = number_node(ts[p + 2]);
    let t = ts[p + 1];
    assert(adv(ts, at(p + 1, e)) == at(p + 2, e));
    let n = binary("LogicalAnd"@, t, a, b);
    assert(n =~= operator_node("LogicalAnd"@, t, a, b)) by {
        assert(n.children =~= seq![a, b]);
    }
    assert(and_loop(ts, n, at(p + 3, e)) == (n, at(p + 3, e)));
    assert(and_loop(ts, a, at(p + 1, e)) == and_loop(ts, n, at(p + 3, e)));
}

/// `a || b` of two numbers: a `LogicalOr` node at the `||` with `a` first
/// and `b` second.
#[verifier::rlimit(50)]
pub proof fn lemma_disjunction_operands(ts: Seq<TokenView>, p: int, e: Seq<crate::models::error::SyntaxErrorView>)
    requires
        0 <= p,
        p + 2 < ts.len(),
        is_number(ts[p]),
        cur_is_lex(ts, p + 1, "OP"@, "||"@),
        is_number(ts[p + 2]),
        ends_conjunction(ts, p + 3),
        !cur_is_lex(ts, p + 3, "OP"@, "||"@),
    ensures
        p_or(ts, at(p, e)) == (
            operator_node("LogicalOr"@, ts[p + 1], number_node(ts[p]), number_node(ts[p + 2])),
            at(p + 3, e),
        ),
{
    lemma_type_literals();
    lemma_ops_differ();
    assert(ends_conjunction(ts, p + 1));
    lemma_number_conjunction(ts, p, e);
    lemma_number_conjunction(ts, p + 2, e);
    let a = number_node(ts[p]);
    let b = number_node(ts[p + 2]);
    let t = ts[p + 1];
    assert(adv(ts, at(p + 1, e)) == at(p + 2, e));
    let n = binary("LogicalOr"@, t, a, b);
    assert(n =~= operator_node("LogicalOr"@, t, a, b)) by {
        assert(n.children =~= seq![a, b]);
    }
    assert(or_loop(ts, n, at(p + 3, e)) == (n, at(p + 3, e)));
    assert(or_loop(ts, a, at(p + 1, e)) == or_loop(ts, n, at(p + 3, e)));
}

/// A number followed by a `;` is a whole expression.
proof fn lemma_number_expression(ts: Seq<TokenView>, p: int, e: Seq<crate::models::error::SyntaxErrorView>)
    requires
        0 <= p,
        p + 1 < ts.len(),
        is_number(ts[p]),
        cur_is_lex(ts, p + 1, "SYM"@, ";"@),
    ensures
        p_expression(ts, at(p, e)) == (number_node(ts[p]), at(p + 1, e)),
{
    lemma_type_literals();
    lemma_ops_differ();
    assert(ends_conjunction(ts, p + 1));
    lemma_number_conjunction(ts, p, e);
    let a = number_node(ts[p]);
    assert(or_loop(ts, a, at(p + 1, e)) == (a, at(p + 1, e)));
}

/// `x = n;`: an `Assignment` node at `x` whose first child is the target
/// `x` and whose second is the expression statement holding `n`.
#[verifier::rlimit(50)]
pub proof fn lemma_assignment_parts(ts: Seq<TokenView>, p: int, e: Seq<crate::models::error::SyntaxErrorView>)
    requires
        0 <= p,
        p + 3 < ts.len(),
        cur_is(ts, p, "ID"@),
        cur_is(ts, p + 1, "ASIG"@),
        is_number(ts[p + 2]),
        cur_is_lex(ts, p + 3, "SYM"@, ";"@),
    ensures
        p_statement(ts, at(p, e)) == (
            NodeView {
                label: "Assignment"@,
                children: seq![
                    leaf_at("id: "@ + ts[p].lexeme, ts[p].line, ts[p].column),
                    NodeView {
                        label: "ExpressionStatement"@,
                        children: seq![number_node(ts[p + 2])],
                        line: None,
                        column: None,
                    },
                ],
                line: Some(ts[p].line as usize),
                column: Some(ts[p].column as usize),
            },
            at(p + 4, e),
        ),
{
    lemma_type_literals();
    reveal_strlit("IF");
    reveal_strlit("WHILE");
    reveal_strlit("DO");
    reveal_strlit("CIN");
    reveal_strlit("COUT");
    reveal_strlit("ASIG");
    assert("IF"@ =~= seq!['I', 'F']);
    assert("WHILE"@ =~= seq!['W', 'H', 'I', 'L', 'E']);
    assert("DO"@ =~= seq!['D', 'O']);
    assert("CIN"@ =~= seq!['C', 'I', 'N']);
    assert("COUT"@ =~= seq!['C', 'O', 'U', 'T']);
    assert("ASIG"@ =~= seq!['A', 'S', 'I', 'G']);
    let t = ts[p];
    assert(!is_inc_dec(ts, p + 1));
    assert(!cur_is_lex(ts, p + 2, "SYM"@, ";"@));
    lemma_number_expression(ts, p + 2, e);
    let id = leaf_at("id: "@ + t.lexeme, t.line, t.column);
    let es = with_child(leaf("ExpressionStatement"@), number_node(ts[p + 2]));
    assert(p_sent_expression(ts, at(p + 2, e)) == (es, at(p + 4, e)));
    let n = with_child(with_child(leaf_at("Assignment"@, t.line, t.column), id), es);
    assert(p_id_statement(ts, at(p, e)) == (n, at(p + 4, e)));
    assert(es.children =~= seq![number_node(ts[p + 2])]);
    assert(n.children =~= seq![id, es]);
    assert(placed_opt(n, Some(t.line as usize), Some(t.column as usize)) =~= n);
}

} // verus!
