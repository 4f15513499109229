//! Control plane of a camera-based detection appliance: the envelope wire
//! protocol and the state machines of the actors that exchange envelopes.

pub mod actors;
pub mod framework;
pub mod messages;
pub mod wire;
