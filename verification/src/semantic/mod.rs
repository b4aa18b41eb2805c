//! The semantic model: ids, types, expressions, functions, and the tables that describe them.

pub mod db;
pub mod diagnostics;
pub mod exprs;
pub mod ids;
