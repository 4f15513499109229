//! What the actors share: the buses and what an actor hands back for them.

pub mod clock;
pub mod outbox;
pub mod streams;
