//! Syntax analysis.
pub mod base;
pub mod expressions;
pub mod grammar;
pub mod operators;
pub mod statements;
pub mod utils;

pub use self::base::Parser;
pub use self::utils::parse_tokens_from_text;

use vstd::prelude::*;
use crate::compiler::lexer::analyzer::analyze;
use crate::compiler::lexer::model::lex;
use crate::compiler::parser::grammar::{PState, parse_from, parse_tokens};
use crate::models::NodeView;
use crate::models::error::SyntaxErrorView;
use crate::models::{AstNode, SyntaxError, Token};

verus! {

/// The tree of a source text: its tokens, as the scanner finds them,
/// parsed from the first one.
pub open spec fn source_tree(src: Seq<char>) -> NodeView {
    parse_from(lex(src, false).0, PState { pos: 0, errors: Seq::empty() }).0
}

/// The tree of a source text with the syntax errors found on the way.
pub open spec fn source_syntax(src: Seq<char>) -> (NodeView, Seq<SyntaxErrorView>) {
    parse_tokens(lex(src, false).0)
}

/// The syntax tree of `source`: its tokens, as [`analyze`] finds them, parsed;
/// lexical errors are left out.
pub fn build_ast(source: &str) -> (ast: AstNode)
    requires
        source@.len() + 3 <= usize::MAX,
    ensures
        ast.node_view() == source_tree(source@),
{
    let (tokens, _) = analyze(source);
    let mut parser = Parser::new(tokens.as_slice());
    parser.parse()
}

/// The syntax tree of `source` with the syntax errors found on the way.
pub fn build_ast_with_errors(source: &str) -> (r: (AstNode, Vec<SyntaxError>))
    requires
        source@.len() + 3 <= usize::MAX,
    ensures
        (r.0.node_view(), r.1.deep_view()) == source_syntax(source@),
{
    let (tokens, _) = analyze(source);
    let mut parser = Parser::new(tokens.as_slice());
    let ast = parser.parse();
    (ast, parser.errors)
}

/// The syntax tree of a token sequence with the syntax errors found on the way.
pub fn build_ast_from_tokens(tokens: &[Token]) -> (r: (AstNode, Vec<SyntaxError>))
    ensures
        (r.0.node_view(), r.1.deep_view()) == parse_tokens(tokens.deep_view()),
{
    let mut parser = Parser::new(tokens);
    let ast = parser.parse();
    (ast, parser.errors)
}

/// The ways into the parser agree: `build_ast` gives the tree of
/// `build_ast_with_errors`, and that function gives what
/// `build_ast_from_tokens` gives on the tokens of `analyze`, so lexical
/// errors never show among the syntax errors.
pub proof fn lemma_build_paths_agree(src: Seq<char>)
    ensures
        source_tree(src) == source_syntax(src).0,
        source_syntax(src) == parse_tokens(lex(src, false).0),
{
}

} // verus!
