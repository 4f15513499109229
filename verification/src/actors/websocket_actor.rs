//! The gateway between one websocket client at a time and the buses.

use crate::messages::protobuf_msg::{
    envelope_bytes, received_envelope, Envelope, ProtobufMsg,
};
use crate::messages::raw_message::RawMessage;
use crate::wire::DecodeError;
use vstd::prelude::*;

verus! {

/// What the read loop of a connection got from its socket.
#[derive(Clone, Debug, PartialEq, Eq)]
pub enum Inbound {
    /// A binary frame and its bytes.
    Binary(Vec<u8>),
    /// A close frame.
    Close,
    /// A text, ping or pong frame.
    Control,
    /// The socket failed.
    Failed,
}

/// What the read loop does with what it got.
#[derive(Clone, Debug, PartialEq, Eq)]
pub enum ReadAction {
    /// Publish the envelope on the command bus and read on.
    Publish(ProtobufMsg),
    /// The frame holds no envelope: drop it and read on.
    Discard(DecodeError),
    /// Read on.
    Ignore,
    /// Leave the connection.
    Disconnect,
}

/// A wire frame for the client that holds the outbound half.
#[derive(Clone, Debug, PartialEq, Eq)]
pub struct Outbound {
    pub connection: u64,
    pub frame: RawMessage,
}

/// What an event becomes while `slot` holds the outbound half: one wire
/// frame for the client of the slot, or nothing where the slot is empty.
pub open spec fn forwarded(slot: Option<u64>, event: Envelope) -> Option<(u64, Seq<u8>)> {
    match slot {
        Some(connection) => Some((connection, envelope_bytes(event))),
        None => None,
    }
}

/// The slot after the handoffs `handoffs`, one after the other: the last
/// handoff stands.
pub open spec fn slot_after(slot: Option<u64>, handoffs: Seq<Option<u64>>) -> Option<u64> {
    if handoffs.len() == 0 {
        slot
    } else {
        handoffs.last()
    }
}

/// The forwarding side of the gateway: the connection slot, which holds the
/// client that events go to, if there is one. Clients are told apart by a
/// number that the accept loop gives each connection.
#[derive(Clone, Copy, Debug)]
pub struct WebsocketActor {
    write_stream: Option<u64>,
}

impl View for WebsocketActor {
    type V = Option<u64>;

    closed spec fn view(&self) -> Option<u64> {
        self.write_stream
    }
}

impl WebsocketActor {
    /// The gateway with no client connected.
    pub fn new() -> (actor: WebsocketActor)
        ensures
            actor@ is None,
    {
        WebsocketActor { write_stream: None }
    }

    /// The client that events go to, if there is one.
    pub fn connection(&self) -> (slot: Option<u64>)
        ensures
            slot == self@,
    {
        self.write_stream
    }

    /// Takes a handoff from the accept loop: the slot holds what is handed
    /// over, a client or none.
    pub fn on_handoff(&mut self, update: Option<u64>)
        ensures
            final(self)@ == update,
            final(self)@ == slot_after(old(self)@, seq![update]),
    {
        self.write_stream = update;
    }

    /// Takes an event from the event bus: the wire frame to send and the
    /// client to send it to, or `None` where no client is connected and the
    /// event is dropped.
    pub fn on_event(&self, event: &ProtobufMsg) -> (out: Option<Outbound>)
        ensures
            match out {
                Some(o) => forwarded(self@, event@) == Some((o.connection, o.frame@)),
                None => forwarded(self@, event@) is None,
            },
    {
        match self.write_stream {
            Some(connection) => Some(Outbound { connection, frame: event.to_raw_message() }),
            None => None,
        }
    }

    /// Decides what the read loop does with what it got from the socket. A
    /// binary frame is read as a wire frame and published where it holds an
    /// envelope; a close frame or a failure ends the connection; other
    /// frames are passed over. The connection slot has no part in this.
    pub fn on_frame(frame: Inbound) -> (action: ReadAction)
        ensures
            match frame {
                Inbound::Binary(data) => match action {
                    ReadAction::Publish(msg) => received_envelope(data@) == Ok::<
                        Envelope,
                        DecodeError,
                    >(msg@),
                    ReadAction::Discard(e) => received_envelope(data@) == Err::<
                        Envelope,
                        DecodeError,
                    >(e),
                    _ => false,
                },
                Inbound::Close => action is Disconnect,
                Inbound::Control => action is Ignore,
                Inbound::Failed => action is Disconnect,
            },
    {
        match frame {
            Inbound::Binary(data) => match ProtobufMsg::from_raw_message(
                RawMessage { message: data },
            ) {
                Ok(msg) => ReadAction::Publish(msg),
                Err(e) => ReadAction::Discard(e),
            },
            Inbound::Close => ReadAction::Disconnect,
            Inbound::Control => ReadAction::Ignore,
            Inbound::Failed => ReadAction::Disconnect,
        }
    }
}

/// Single-client semantics. Once the outbound half of client `b` has been
/// handed over, every event goes to `b` and to no other client, whoever
/// held the slot before and whatever was handed over in between; and once
/// "none" has been handed over, events go to nobody.
pub proof fn lemma_single_client(
    slot: Option<u64>,
    earlier: Seq<Option<u64>>,
    a: u64,
    b: u64,
    event: Envelope,
)
    requires
        a != b,
    ensures
        forwarded(slot_after(slot, earlier.push(Some(a)).push(Some(b))), event) == Some(
            (b, envelope_bytes(event)),
        ),
        forwarded(slot_after(slot, earlier.push(Some(a)).push(Some(b))), event)->Some_0.0 != a,
        forwarded(slot_after(slot, earlier.push(Some(a)).push(None).push(Some(b))), event)
            == Some((b, envelope_bytes(event))),
        forwarded(slot_after(slot, earlier.push(Some(a)).push(None)), event) is None,
        forwarded(slot_after(slot, earlier.push(Some(a))), event) == Some(
            (a, envelope_bytes(event)),
        ),
{
}

} // verus!
