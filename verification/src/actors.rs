//! The actors, each as a state machine that takes one envelope at a time.

pub mod camera_actor;
pub mod sessions_actor;
pub mod state_actor;
pub mod websocket_actor;
