//! The logic behind the menu actions: token colours, search and the links
//! from the output panels back to the source.
pub mod actions;
pub mod navigator;
