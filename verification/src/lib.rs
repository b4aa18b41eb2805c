//! Verified parts of a Cairo compiler.

pub mod config;
pub mod constant;
pub mod containers;
pub mod duplicate;
pub mod graph;
pub mod integer;
pub mod libfunc;
pub mod libfunc_text;
pub mod search;
pub mod semantic;
pub mod sierra;
pub mod starknet;
pub mod text;
