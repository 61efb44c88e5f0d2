use vstd::prelude::*;
use crate::compiler::parser::base::kept;
use crate::compiler::parser::base::{Parser, concat, paren_label};
use crate::compiler::parser::grammar::{
    and_loop, factor_loop, or_loop, p_and, p_component, p_expression, p_factor, p_or, p_power,
    p_relational, p_simple, p_term, simple_loop, term_loop,
};
use crate::models::AstNode;

verus! {

impl Parser<'_> {
    pub(crate) fn parse_expression(&mut self) -> (n: AstNode)
        requires
            old(self).pos <= old(self).tokens@.len(),
        ensures
            old(self).stepped(final(self)),
            (n.node_view(), final(self).state()) == p_expression(old(self).ts(), old(self).state()),
        decreases old(self).tokens@.len() - old(self).pos, 20int,
    {
        self.parse_logical_or()
    }

    fn parse_logical_or(&mut self) -> (n: AstNode)
        requires
            old(self).pos <= old(self).tokens@.len(),
        ensures
            old(self).stepped(final(self)),
            (n.node_view(), final(self).state()) == p_or(old(self).ts(), old(self).state()),
        decreases old(self).tokens@.len() - old(self).pos, 19int,
    {
        let ghost ts = self.ts();
        let ghost st0 = self.state();
        let mut node = self.parse_logical_and();
        while self.check_lexeme("OP", "||")
            invariant
                self.tokens == old(self).tokens,
                ts == self.ts(),
                st0 == old(self).state(),
                kept(st0.errors, self.state().errors),
                st0.pos <= self.pos <= self.tokens@.len(),
                or_loop(ts, node.node_view(), self.state()) == p_or(ts, st0),
            decreases self.tokens@.len() - self.pos,
        {
            let token = self.current().unwrap();
            let mut op_node = AstNode::new("LogicalOr").with_pos(token.line, token.column);
            self.advance();
            op_node.add_child(node);
            let right = self.parse_logical_and();
            op_node.add_child(right);
            node = op_node;
        }
        node
    }

    fn parse_logical_and(&mut self) -> (n: AstNode)
        requires
            old(self).pos <= old(self).tokens@.len(),
        ensures
            old(self).stepped(final(self)),
            (n.node_view(), final(self).state()) == p_and(old(self).ts(), old(self).state()),
        decreases old(self).tokens@.len() - old(self).pos, 17int,
    {
        let ghost ts = self.ts();
        let ghost st0 = self.state();
        let mut node = self.parse_relational();
        while self.check_lexeme("OP", "&&")
            invariant
                self.tokens == old(self).tokens,
                ts == self.ts(),
                st0 == old(self).state(),
                kept(st0.errors, self.state().errors),
                st0.pos <= self.pos <= self.tokens@.len(),
                and_loop(ts, node.node_view(), self.state()) == p_and(ts, st0),
            decreases self.tokens@.len() - self.pos,
        {
            let token = self.current().unwrap();
            let mut op_node = AstNode::new("LogicalAnd").with_pos(token.line, token.column);
            self.advance();
            op_node.add_child(node);
            let right = self.parse_relational();
            op_node.add_child(right);
            node = op_node;
        }
        node
    }

    fn parse_relational(&mut self) -> (n: AstNode)
        requires
            old(self).pos <= old(self).tokens@.len(),
        ensures
            old(self).stepped(final(self)),
            (n.node_view(), final(self).state()) == p_relational(old(self).ts(), old(self).state()),
        decreases old(self).tokens@.len() - old(self).pos, 15int,
    {
        let mut node = self.parse_simple_expression();
        if self.check_type("REL") {
            let token = self.current().unwrap();
            let label = paren_label("Relational", token.lexeme.as_str());
            let mut op_node = AstNode::new(label.as_str()).with_pos(token.line, token.column);
            self.advance();
            op_node.add_child(node);
            let right = self.parse_simple_expression();
            op_node.add_child(right);
            node = op_node;
        }
        node
    }

    fn parse_simple_expression(&mut self) -> (n: AstNode)
        requires
            old(self).pos <= old(self).tokens@.len(),
        ensures
            old(self).stepped(final(self)),
            (n.node_view(), final(self).state()) == p_simple(old(self).ts(), old(self).state()),
        decreases old(self).tokens@.len() - old(self).pos, 14int,
    {
        let ghost ts = self.ts();
        let ghost st0 = self.state();
        let mut node = self.parse_term();
        loop
            invariant
                self.tokens == old(self).tokens,
                ts == self.ts(),
                st0 == old(self).state(),
                kept(st0.errors, self.state().errors),
                st0.pos <= self.pos <= self.tokens@.len(),
                simple_loop(ts, node.node_view(), self.state()) == p_simple(ts, st0),
            ensures
                self.tokens == old(self).tokens,
                st0 == old(self).state(),
                kept(st0.errors, self.state().errors),
                st0.pos <= self.pos <= self.tokens@.len(),
                (node.node_view(), self.state()) == p_simple(ts, st0),
            decreases self.tokens@.len() - self.pos,
        {
            let token = match self.current() {
                Some(t) => t,
                None => break,
            };
            let is_arit = str_is(token.token_type.as_str(), "ARIT");
            let is_op = str_is(token.token_type.as_str(), "OP");
            let lx = token.lexeme.as_str();
            if is_arit && (str_is(lx, "+") || str_is(lx, "-")) {
                let label = paren_label("AddOp", lx);
                let mut op_node = AstNode::new(label.as_str()).with_pos(token.line, token.column);
                self.advance();
                op_node.add_child(node);
                let right = self.parse_term();
                op_node.add_child(right);
                node = op_node;
            } else if is_op && (str_is(lx, "++") || str_is(lx, "--")) {
                let label = paren_label("UnaryOp", lx);
                let mut op_node = AstNode::new(label.as_str()).with_pos(token.line, token.column);
                self.advance();
                op_node.add_child(node);
                node = op_node;
            } else {
                break;
            }
        }
        node
    }

    fn parse_term(&mut self) -> (n: AstNode)
        requires
            old(self).pos <= old(self).tokens@.len(),
        ensures
            old(self).stepped(final(self)),
            (n.node_view(), final(self).state()) == p_term(old(self).ts(), old(self).state()),
        decreases old(self).tokens@.len() - old(self).pos, 12int,
    {
        let ghost ts = self.ts();
        let ghost st0 = self.state();
        let mut node = self.parse_factor();
        loop
            invariant
                self.tokens == old(self).tokens,
                ts == self.ts(),
                st0 == old(self).state(),
                kept(st0.errors, self.state().errors),
                st0.pos <= self.pos <= self.tokens@.len(),
                term_loop(ts, node.node_view(), self.state()) == p_term(ts, st0),
            ensures
                self.tokens == old(self).tokens,
                st0 == old(self).state(),
                kept(st0.errors, self.state().errors),
                st0.pos <= self.pos <= self.tokens@.len(),
                (node.node_view(), self.state()) == p_term(ts, st0),
            decreases self.tokens@.len() - self.pos,
        {
            let token = match self.current() {
                Some(t) => t,
                None => break,
            };
            let lx = token.lexeme.as_str();
            if str_is(token.token_type.as_str(), "ARIT") && (str_is(lx, "*") || str_is(lx, "/")
                || str_is(lx, "%")) {
                let label = paren_label("MulOp", lx);
                let mut op_node = AstNode::new(label.as_str()).with_pos(token.line, token.column);
                self.advance();
                op_node.add_child(node);
                let right = self.parse_factor();
                op_node.add_child(right);
                node = op_node;
            } else {
                break;
            }
        }
        node
    }

    fn parse_factor(&mut self) -> (n: AstNode)
        requires
            old(self).pos <= old(self).tokens@.len(),
        ensures
            old(self).stepped(final(self)),
            (n.node_view(), final(self).state()) == p_factor(old(self).ts(), old(self).state()),
        decreases old(self).tokens@.len() - old(self).pos, 10int,
    {
        let ghost ts = self.ts();
        let ghost st0 = self.state();
        let mut node = self.parse_power();
        while self.check_type("ARIT") && str_is(self.current().unwrap().lexeme.as_str(), "^")
            invariant
                self.tokens == old(self).tokens,
                ts == self.ts(),
                st0 == old(self).state(),
                kept(st0.errors, self.state().errors),
                st0.pos <= self.pos <= self.tokens@.len(),
                factor_loop(ts, node.node_view(), self.state()) == p_factor(ts, st0),
            decreases self.tokens@.len() - self.pos,
        {
            let token = self.current().unwrap();
            let mut op_node = AstNode::new("Power").with_pos(token.line, token.column);
            self.advance();
            op_node.add_child(node);
            let right = self.parse_power();
            op_node.add_child(right);
            node = op_node;
        }
        node
    }

    fn parse_power(&mut self) -> (n: AstNode)
        requires
            old(self).pos <= old(self).tokens@.len(),
        ensures
            old(self).stepped(final(self)),
            (n.node_view(), final(self).state()) == p_power(old(self).ts(), old(self).state()),
        decreases old(self).tokens@.len() - old(self).pos, 8int,
    {
        if self.check_lexeme("OP", "++") || self.check_lexeme("OP", "--") {
            let token = self.current().unwrap();
            let label = paren_label("Prefix", token.lexeme.as_str());
            let mut node = AstNode::new(label.as_str()).with_pos(token.line, token.column);
            self.advance();
            let child = self.parse_power();
            node.add_child(child);
            return node;
        }
        if self.check_lexeme("REL", "!") {
            let token = self.current().unwrap();
            let mut node = AstNode::new("Not").with_pos(token.line, token.column);
            self.advance();
            let child = self.parse_power();
            node.add_child(child);
            return node;
        }
        self.parse_component()
    }

    fn parse_component(&mut self) -> (n: AstNode)
        requires
            old(self).pos <= old(self).tokens@.len(),
        ensures
            old(self).stepped(final(self)),
            (n.node_view(), final(self).state()) == p_component(old(self).ts(), old(self).state()),
        decreases old(self).tokens@.len() - old(self).pos, 7int,
    {
        if self.match_lexeme("SYM", "(") {
            let node = self.parse_expression();
            if !self.match_lexeme("SYM", ")") {
                self.report_here("Expected ')'");
            }
            return node;
        }
        if let Some(token) = self.current() {
            let ty = token.token_type.as_str();
            let node = if str_is(ty, "INT") || str_is(ty, "FLOAT") {
                let label = concat("number: ", token.lexeme.as_str());
                self.advance();
                AstNode::new(label.as_str()).with_pos(token.line, token.column)
            } else if str_is(ty, "TRUE") || str_is(ty, "FALSE") {
                let label = concat("bool: ", token.lexeme.as_str());
                self.advance();
                AstNode::new(label.as_str()).with_pos(token.line, token.column)
            } else if str_is(ty, "ID") {
                let label = concat("id: ", token.lexeme.as_str());
                self.advance();
                AstNode::new(label.as_str()).with_pos(token.line, token.column)
            } else if str_is(ty, "STRING") {
                let label = concat("string: ", token.lexeme.as_str());
                self.advance();
                AstNode::new(label.as_str()).with_pos(token.line, token.column)
            } else {
                let (line, column, found) = self.location_details();
                let mut message = concat("Unexpected component '", found.as_str());
                message.append("'");
                self.report_here(message.as_str());
                self.advance();
                AstNode::new("ErrorComponent").with_pos(line, column)
            };
            if self.check_lexeme("OP", "++") || self.check_lexeme("OP", "--") {
                let op_token = self.current().unwrap();
                let label = paren_label("Postfix", op_token.lexeme.as_str());
                let mut op_node = AstNode::new(label.as_str()).with_pos(
                    op_token.line,
                    op_token.column,
                );
                self.advance();
                op_node.add_child(node);
                return op_node;
            }
            return node;
        }
        let (line, column) = self.location_or_zero();
        self.report_here("Unexpected end of expression");
        AstNode::new("Empty").with_pos(line, column)
    }
}

/// `a == b` on string slices.
fn str_is(a: &str, b: &str) -> (r: bool)
    ensures
        r == (a@ == b@),
{
    crate::text::str_eq(a, b)
}

} // verus!
