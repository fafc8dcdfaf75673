//! What an agent is launched with, and whether its runtime is ready.
pub mod providers;
pub mod records;
pub mod cache;
pub mod descriptor;
pub mod digest;
pub mod models;
pub mod probe;
pub mod laws;
