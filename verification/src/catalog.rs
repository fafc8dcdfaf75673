//! The catalog of agent harnesses: what is known of each, and how one is found.
pub mod runtime_metadata;
pub mod definition;
pub mod presets;
pub mod identity;
pub mod catalog_ids;
pub mod laws;
