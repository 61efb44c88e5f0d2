use vstd::prelude::*;
use crate::compiler::parser::base::kept;
use crate::compiler::parser::base::{Parser, concat, paren_label};
use crate::compiler::parser::grammar::{
    block_continues, block_loop, chain_loop, p_id_statement, p_input, p_iteration, p_output,
    p_output_operand, p_repetition, p_selection, p_sent_expression, p_statement,
};
use crate::models::AstNode;
use crate::models::ast::with_child;
use crate::text::str_eq;

verus! {

impl Parser<'_> {
    /// A statement, placed at the position of its first token.
    pub(crate) fn parse_statement(&mut self) -> (n: AstNode)
        requires
            old(self).pos <= old(self).tokens@.len(),
        ensures
            old(self).stepped(final(self)),
            (n.node_view(), final(self).state()) == p_statement(old(self).ts(), old(self).state()),
            old(self).pos < old(self).tokens@.len() ==> old(self).pos < final(self).pos,
        decreases old(self).tokens@.len() - old(self).pos, 3int,
    {
        let (line, column) = if let Some(token) = self.current() {
            (Some(token.line), Some(token.column))
        } else {
            (None, None)
        };
        match self.current() {
            Some(token) => {
                let ty = token.token_type.as_str();
                if str_eq(ty, "IF") {
                    self.parse_selection().with_opt_pos(line, column)
                } else if str_eq(ty, "WHILE") {
                    self.parse_iteration().with_opt_pos(line, column)
                } else if str_eq(ty, "DO") {
                    self.parse_repetition().with_opt_pos(line, column)
                } else if str_eq(ty, "CIN") {
                    self.parse_input().with_opt_pos(line, column)
                } else if str_eq(ty, "COUT") {
                    self.parse_output().with_opt_pos(line, column)
                } else if str_eq(ty, "ID") {
                    self.parse_id_statement().with_opt_pos(line, column)
                } else {
                    let (line_val, column_val, found) = self.location_details();
                    let mut message = concat("Unexpected token '", found.as_str());
                    message.append("' in statement");
                    self.report_here(message.as_str());
                    self.advance();
                    AstNode::new("UnknownStatement").with_pos(line_val, column_val)
                }
            },
            None => AstNode::new("EmptyStatement"),
        }
    }

    /// Appends statements to `block` while [`block_continues`] of `kind`.
    fn parse_block(&mut self, block: AstNode, kind: u8) -> (n: AstNode)
        requires
            old(self).pos <= old(self).tokens@.len(),
            kind <= 3,
        ensures
            old(self).stepped(final(self)),
            (n.node_view(), final(self).state()) == block_loop(
                old(self).ts(),
                block.node_view(),
                old(self).state(),
                kind as int,
            ),
        decreases old(self).tokens@.len() - old(self).pos, 4int,
    {
        let ghost ts = self.ts();
        let ghost st0 = self.state();
        let ghost b0 = block.node_view();
        let mut block = block;
        loop
            invariant
                self.tokens == old(self).tokens,
                ts == self.ts(),
                st0 == old(self).state(),
                kept(st0.errors, self.state().errors),
                st0.pos <= self.pos <= self.tokens@.len(),
                kind <= 3,
                block_loop(ts, block.node_view(), self.state(), kind as int) == block_loop(ts, b0, st0, kind as int),
            ensures
                self.tokens == old(self).tokens,
                st0.pos <= self.pos <= self.tokens@.len(),
                (block.node_view(), self.state()) == block_loop(ts, b0, st0, kind as int),
            decreases self.tokens@.len() - self.pos,
        {
            let go = !self.at_end() && self.can_start_statement() && if kind == 0 {
                !self.check_type("ELSE") && !self.check_type("END")
            } else if kind == 1 {
                !self.check_type("END")
            } else if kind == 2 {
                !self.check_lexeme("SYM", "}")
            } else {
                !self.check_type("WHILE") && !self.check_type("UNTIL")
            };
            if !go {
                break;
            }
            let ghost st = self.state();
            let ghost bv = block.node_view();
            assert(block_continues(ts, st.pos, kind as int));
            let s = self.parse_statement();
            assert(block_loop(ts, bv, st, kind as int) == block_loop(ts, with_child(bv, s.node_view()), self.state(), kind as int));
            block.add_child(s);
        }
        block
    }


    fn parse_id_statement(&mut self) -> (n: AstNode)
        requires
            old(self).pos < old(self).tokens@.len(),
        ensures
            old(self).stepped(final(self)),
            (n.node_view(), final(self).state()) == p_id_statement(old(self).ts(), old(self).state()),
            old(self).pos < final(self).pos,
    {
        let first = self.current().unwrap();
        let id_name = first.lexeme.as_str();
        let (id_line, id_col) = (first.line, first.column);
        self.advance();

        if self.check_lexeme("OP", "++") || self.check_lexeme("OP", "--") {
            let op_token = self.current().unwrap();
            let (op_line, op_col) = (op_token.line, op_token.column);
            let label = paren_label("Postfix", op_token.lexeme.as_str());
            self.advance();
            let mut node = AstNode::new("ExpressionStatement").with_pos(id_line, id_col);
            let mut expr_node = AstNode::new(label.as_str()).with_pos(op_line, op_col);
            let id_label = concat("id: ", id_name);
            expr_node.add_child(AstNode::new(id_label.as_str()).with_pos(id_line, id_col));
            node.add_child(expr_node);
            if !self.match_lexeme("SYM", ";") {
                self.report_here("Expected ';' after expression");
            }
            return node;
        }

        let mut node = AstNode::new("Assignment").with_pos(id_line, id_col);
        let id_label = concat("id: ", id_name);
        node.add_child(AstNode::new(id_label.as_str()).with_pos(id_line, id_col));
        if !self.match_type("ASIG") {
            self.report_here("Expected '=' in assignment");
        }
        let e = self.parse_sent_expression();
        node.add_child(e);
        node
    }

    fn parse_sent_expression(&mut self) -> (n: AstNode)
        requires
            old(self).pos <= old(self).tokens@.len(),
        ensures
            old(self).stepped(final(self)),
            (n.node_view(), final(self).state()) == p_sent_expression(old(self).ts(), old(self).state()),
    {
        let mut node = AstNode::new("ExpressionStatement");
        if self.match_lexeme("SYM", ";") {
            node.add_child(AstNode::new("empty"));
            return node;
        }
        let e = self.parse_expression();
        node.add_child(e);
        if !self.match_lexeme("SYM", ";") {
            self.report_here("Expected ';' after expression");
            self.synchronize();
        }
        node
    }

    fn parse_selection(&mut self) -> (n: AstNode)
        requires
            old(self).pos < old(self).tokens@.len(),
        ensures
            old(self).stepped(final(self)),
            (n.node_view(), final(self).state()) == p_selection(old(self).ts(), old(self).state()),
            old(self).pos < final(self).pos,
        decreases old(self).tokens@.len() - old(self).pos, 2int,
    {
        let (line_val, col_val) = self.location_or_zero();
        let mut node = AstNode::new("Selection").with_pos(line_val, col_val);
        self.advance();
        node.add_child(AstNode::new("if").with_pos(line_val, col_val));
        let cond = self.parse_expression();
        node.add_child(cond);

        if !self.match_type("THEN") {
            self.report_here("Expected 'then' after condition");
        }

        let then_block = self.parse_block(AstNode::new("ThenBlock"), 0);
        node.add_child(then_block);

        if self.match_type("ELSE") {
            let else_block = self.parse_block(AstNode::new("ElseBlock"), 1);
            node.add_child(else_block);
        }

        if !self.match_type("END") {
            self.report_here("Expected 'end' after selection");
            self.synchronize();
        }
        if self.match_lexeme("SYM", ";") {
        }
        node
    }

    fn parse_iteration(&mut self) -> (n: AstNode)
        requires
            old(self).pos < old(self).tokens@.len(),
        ensures
            old(self).stepped(final(self)),
            (n.node_view(), final(self).state()) == p_iteration(old(self).ts(), old(self).state()),
            old(self).pos < final(self).pos,
        decreases old(self).tokens@.len() - old(self).pos, 2int,
    {
        let (line_val, col_val) = self.location_or_zero();
        let mut node = AstNode::new("Iteration").with_pos(line_val, col_val);
        self.advance();
        node.add_child(AstNode::new("while").with_pos(line_val, col_val));
        let cond = self.parse_expression();
        node.add_child(cond);

        let body;
        if self.match_lexeme("SYM", "{") {
            body = self.parse_block(AstNode::new("WhileBody"), 2);
            if !self.match_lexeme("SYM", "}") {
                self.report_here("Expected '}' after while body");
                self.synchronize();
            }
        } else {
            body = self.parse_block(AstNode::new("WhileBody"), 1);
            if !self.match_type("END") {
                self.report_here("Expected 'end' or '{...}' body after while loop");
                self.synchronize();
            }
        }
        node.add_child(body);
        if self.match_lexeme("SYM", ";") {
        }
        node
    }

    fn parse_repetition(&mut self) -> (n: AstNode)
        requires
            old(self).pos < old(self).tokens@.len(),
        ensures
            old(self).stepped(final(self)),
            (n.node_view(), final(self).state()) == p_repetition(old(self).ts(), old(self).state()),
            old(self).pos < final(self).pos,
        decreases old(self).tokens@.len() - old(self).pos, 2int,
    {
        let (line_val, col_val) = self.location_or_zero();
        let mut node = AstNode::new("Repetition").with_pos(line_val, col_val);
        self.advance();
        node.add_child(AstNode::new("do").with_pos(line_val, col_val));

        let body;
        if self.match_lexeme("SYM", "{") {
            body = self.parse_block(AstNode::new("DoBody"), 2);
            if !self.match_lexeme("SYM", "}") {
                self.report_here("Expected '}' after do body");
                self.synchronize();
            }
        } else {
            body = self.parse_block(AstNode::new("DoBody"), 3);
        }
        node.add_child(body);

        if self.check_type("WHILE") || self.check_type("UNTIL") {
            let token = self.current().unwrap();
            node.add_child(AstNode::new(token.lexeme.as_str()).with_pos(token.line, token.column));
            self.advance();
        } else {
            self.report_here("Expected 'while' or 'until' after do body");
        }
        let cond = self.parse_expression();
        node.add_child(cond);
        if self.match_lexeme("SYM", ";") {
        }
        node
    }

    fn parse_input(&mut self) -> (n: AstNode)
        requires
            old(self).pos < old(self).tokens@.len(),
        ensures
            old(self).stepped(final(self)),
            (n.node_view(), final(self).state()) == p_input(old(self).ts(), old(self).state()),
            old(self).pos < final(self).pos,
    {
        let (line_val, col_val) = self.location_or_zero();
        let mut node = AstNode::new("Input").with_pos(line_val, col_val);
        self.advance();
        if !self.match_lexeme("OP", ">>") {
            self.report_here("Expected '>>' after cin");
        }
        if let Some(token) = self.current() {
            if str_eq(token.token_type.as_str(), "ID") {
                let label = concat("id: ", token.lexeme.as_str());
                node.add_child(AstNode::new(label.as_str()).with_pos(token.line, token.column));
                self.advance();
            } else {
                self.report_here("Expected identifier after cin >>");
            }
        }
        if !self.match_lexeme("SYM", ";") {
            self.report_here("Expected ';' after input");
        }
        node
    }

    fn parse_output(&mut self) -> (n: AstNode)
        requires
            old(self).pos < old(self).tokens@.len(),
        ensures
            old(self).stepped(final(self)),
            (n.node_view(), final(self).state()) == p_output(old(self).ts(), old(self).state()),
            old(self).pos < final(self).pos,
    {
        let (line_val, col_val) = self.location_or_zero();
        let mut node = AstNode::new("Output").with_pos(line_val, col_val);
        self.advance();
        if !self.match_lexeme("OP", "<<") {
            self.report_here("Expected '<<' after cout");
        }

        let mut output_chain = AstNode::new("OutputChain");
        let first = self.parse_output_operand();
        output_chain.add_child(first);

        let ghost ts = self.ts();
        let ghost st3 = self.state();
        let ghost chain0 = output_chain.node_view();
        while self.match_lexeme("OP", "<<")
            invariant
                self.tokens == old(self).tokens,
                ts == self.ts(),
                st3.pos <= self.pos <= self.tokens@.len(),
                kept(old(self).state().errors, self.state().errors),
                chain_loop(ts, output_chain.node_view(), self.state()) == chain_loop(ts, chain0, st3),
            decreases self.tokens@.len() - self.pos,
        {
            let operand = self.parse_output_operand();
            output_chain.add_child(operand);
        }

        node.add_child(output_chain);
        if self.match_lexeme("SYM", ";") {
        }
        node
    }

    fn parse_output_operand(&mut self) -> (n: AstNode)
        requires
            old(self).pos <= old(self).tokens@.len(),
        ensures
            old(self).stepped(final(self)),
            (n.node_view(), final(self).state()) == p_output_operand(old(self).ts(), old(self).state()),
    {
        if self.check_type("STRING") {
            let token = self.current().unwrap();
            let label = concat("string: ", token.lexeme.as_str());
            self.advance();
            AstNode::new(label.as_str()).with_pos(token.line, token.column)
        } else {
            self.parse_expression()
        }
    }
}

} // verus!
