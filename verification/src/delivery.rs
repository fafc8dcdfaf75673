//! Durable delivery of the final reply that a host publishes for an agent.
//!
//! A reply is built and signed once. From then on the exact signed bytes are kept in
//! an outbox record until a relay has accepted them or delivery has ended. A record
//! that has ended keeps no body, only what fences a replay of the consumed events.
pub mod record;
pub mod outbox;
pub mod run;
pub mod laws;
pub mod fence;
pub mod history;
pub mod conduct;
pub mod finalize;
pub mod observe;
pub mod recovery;
