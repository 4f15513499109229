use capture_control::actors::websocket_actor::{Inbound, Outbound, ReadAction, WebsocketActor};
use capture_control::messages::protobuf_msg::ProtobufMsg;
use capture_control::messages::raw_message::RawMessage;
use capture_control::wire::DecodeError;

fn envelope(topic: &str, payload: &[u8]) -> ProtobufMsg {
    ProtobufMsg { identifier: topic.to_string(), payload: payload.to_vec() }
}

#[test]
fn no_client_at_the_start() {
    assert_eq!(WebsocketActor::new().connection(), None);
}

#[test]
fn events_without_a_client_are_dropped() {
    let actor = WebsocketActor::new();
    assert_eq!(actor.on_event(&envelope("state.capture", &[8, 1])), None);
}

#[test]
fn events_go_to_the_client_as_one_frame() {
    let mut actor = WebsocketActor::new();
    actor.on_handoff(Some(7));
    assert_eq!(actor.connection(), Some(7));
    assert_eq!(
        actor.on_event(&envelope("ab", &[7])),
        Some(Outbound {
            connection: 7,
            frame: RawMessage { message: vec![0x0A, 2, b'a', b'b', 0x12, 1, 7] },
        })
    );
}

#[test]
fn a_new_client_supersedes_the_one_before() {
    let mut actor = WebsocketActor::new();
    let event = envelope("session.opened", &[1]);
    actor.on_handoff(Some(1));
    assert_eq!(actor.on_event(&event).map(|o| o.connection), Some(1));
    actor.on_handoff(Some(2));
    for _ in 0..5 {
        assert_eq!(actor.on_event(&event).map(|o| o.connection), Some(2));
    }
}

#[test]
fn client_a_then_client_b() {
    let mut actor = WebsocketActor::new();
    // A connects and sends a command
    actor.on_handoff(Some(1));
    let from_a = envelope("session.open", &[]).to_raw_message().message;
    assert_eq!(
        WebsocketActor::on_frame(Inbound::Binary(from_a.clone())),
        ReadAction::Publish(envelope("session.open", &[]))
    );
    // A leaves, B connects
    assert_eq!(WebsocketActor::on_frame(Inbound::Close), ReadAction::Disconnect);
    actor.on_handoff(None);
    assert_eq!(actor.on_event(&envelope("lost", &[])), None);
    actor.on_handoff(Some(2));
    assert_eq!(actor.on_event(&envelope("state.capture", &[])).unwrap().connection, 2);
    // what A sent is read the same way whoever holds the slot
    assert_eq!(
        WebsocketActor::on_frame(Inbound::Binary(from_a)),
        ReadAction::Publish(envelope("session.open", &[]))
    );
}

#[test]
fn handing_over_none_clears_the_slot() {
    let mut actor = WebsocketActor::new();
    actor.on_handoff(Some(3));
    actor.on_handoff(None);
    assert_eq!(actor.connection(), None);
    assert_eq!(actor.on_event(&envelope("x", &[])), None);
}

#[test]
fn binary_frames_are_published_with_the_topic_trimmed() {
    let frame = envelope(" state.capture.get ", &[1, 2]).to_raw_message().message;
    assert_eq!(
        WebsocketActor::on_frame(Inbound::Binary(frame)),
        ReadAction::Publish(envelope("state.capture.get", &[1, 2]))
    );
}

#[test]
fn frames_that_hold_no_envelope_are_discarded() {
    assert_eq!(
        WebsocketActor::on_frame(Inbound::Binary(vec![0x0A, 9, 1])),
        ReadAction::Discard(DecodeError::Malformed)
    );
    assert_eq!(
        WebsocketActor::on_frame(Inbound::Binary(vec![0x08, 1])),
        ReadAction::Discard(DecodeError::InvalidField)
    );
}

#[test]
fn control_frames_are_ignored_and_close_disconnects() {
    assert_eq!(WebsocketActor::on_frame(Inbound::Control), ReadAction::Ignore);
    assert_eq!(WebsocketActor::on_frame(Inbound::Close), ReadAction::Disconnect);
    assert_eq!(WebsocketActor::on_frame(Inbound::Failed), ReadAction::Disconnect);
}
