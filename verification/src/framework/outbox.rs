//! What a step of an actor asks to have published.

use crate::messages::protobuf_msg::{Envelope, ProtobufMsg};
use vstd::prelude::*;

verus! {

/// The two buses of the process.
#[derive(Clone, Copy, Debug, PartialEq, Eq, Structural)]
pub enum Bus {
    /// Commands from outside and signals between actors.
    Command,
    /// Notifications for the gateway to send out.
    Event,
}

/// An envelope together with the bus that it is to be published on.
#[derive(Clone, Debug, PartialEq, Eq)]
pub struct Publication {
    pub bus: Bus,
    pub message: ProtobufMsg,
}

impl View for Publication {
    type V = (Bus, Envelope);

    open spec fn view(&self) -> (Bus, Envelope) {
        (self.bus, self.message@)
    }
}

/// The publications of `list` in order, each by its view.
pub open spec fn publications(list: Seq<Publication>) -> Seq<(Bus, Envelope)> {
    Seq::new(list.len(), |i: int| list[i]@)
}

/// The envelopes of `list` in order, each by its view.
pub open spec fn envelopes(list: Seq<ProtobufMsg>) -> Seq<Envelope> {
    Seq::new(list.len(), |i: int| list[i]@)
}

} // verus!
