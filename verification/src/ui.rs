//! The editor's own logic: what the panels show and how their text is read.
pub mod menu;
pub mod panels;
