pub mod decl;
pub mod expr;
pub mod program;
pub mod search;
pub mod stmt;
pub mod view;
pub mod clone;
pub mod dump;
pub mod visit_log;
pub mod visitor;
