//! Relay engine of a bridge from a publish/subscribe bus to a visualization
//! server: schema resolution, channel planning, startup sequencing and the
//! per-topic forwarding state machine.

pub mod config;
pub mod relay;
pub mod schema;
pub mod startup;
