//! Sierra programs: their ids, and how labels and ids in them are replaced.
pub mod db;
pub mod debug_names;
pub mod ids;
pub mod pre_sierra;
pub mod program;
pub mod replace_ids;
pub mod resolve_labels;
pub mod specialization_context;
