//! The envelope that travels on the buses, its wire frame and the payloads
//! that the actors put into it.

pub mod control;
pub mod protobuf_msg;
pub mod raw_message;
pub mod sessions;
pub mod text;
