//! A request broker for externally computed results: requests are created,
//! attested by oracles through hash votes, resolved by weighted majority and
//! delivered to the requester through a callback whose accounts were fixed at
//! creation.

pub mod state;
pub mod tally;
pub mod broker;
pub mod consumer;
pub mod cpi;
pub mod digest;
pub mod dispatch;
pub mod wire;
pub mod laws;
