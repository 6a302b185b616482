//! Access broker for shared endpoints.
//!
//! Many clients observe or control named endpoints. The broker decides, one
//! request at a time, who holds an endpoint, who waits for it and who listens
//! to it.

pub mod actions;
pub mod broker;
pub mod bytes;
pub mod endpoint;
pub mod endpoint_state;
pub mod error;
pub mod holdings;
pub mod hub;
pub mod laws;
pub mod model;
pub mod peer;
pub mod roster;
pub mod transport;
pub mod user;
