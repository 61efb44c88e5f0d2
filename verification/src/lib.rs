//! The lexer, parser and editor logic of an IDE for the C-- language.
pub mod compiler;
pub mod models;
pub mod text;
pub mod ui;
