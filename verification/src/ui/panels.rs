//! The logic of the output panels.
pub mod ast_view;
