//! A verified core for a command-line SQL tool: dialect selection, SQL
//! statement splitting and validation, AST rendering (JSON, YAML, tree),
//! formatted-SQL diffs and the decisions of an interactive session.

pub mod batch;
pub mod dialect;
pub mod input;
pub mod lex;
pub mod diff;
pub mod sql;
pub mod render;
pub mod repl;
pub mod text;
pub mod tree;

