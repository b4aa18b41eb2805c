//! Items that are kept or dropped by the configuration: the attribute `#[cfg(..)]`.
pub mod plugin;
pub mod predicate;
