//! The core of an agent host: which turns agents take in a room, which directories they may
//! work in, who decides on their permissions, how their final replies are delivered exactly
//! as they were signed, which harnesses they can be launched with, and whether those are
//! ready.
pub mod catalog;
pub mod decision;
pub mod delivery;
pub mod draws;
pub mod env_map;
pub mod json;
pub mod keyed;
pub mod ompk_execution;
pub mod outside;
pub mod pair_key;
pub mod participation;
pub mod permission;
pub mod pool;
pub mod readiness;
pub mod room_event;
pub mod search;
pub mod text;
pub mod views;
