//! The C-- front end: lexical and syntax analysis.
pub mod lexer;
pub mod parser;

pub use self::lexer::analyzer::analyze;
pub use self::parser::build_ast_with_errors;
