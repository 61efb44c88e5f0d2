//! Tokens, diagnostics and syntax trees.
pub mod ast;
pub mod error;
pub mod token;

pub use ast::{AstNode, NodeView};
pub use error::{LexicalError, LexicalErrorView, SyntaxError, SyntaxErrorView};
pub use token::{Token, TokenView};
