use capture_control::actors::camera_actor::{CameraAction, CameraActor};
use capture_control::messages::protobuf_msg::ProtobufMsg;
use capture_control::wire::DecodeError;

fn command(topic: &str, payload: &[u8]) -> ProtobufMsg {
    ProtobufMsg { identifier: topic.to_string(), payload: payload.to_vec() }
}

#[test]
fn start_signal_starts_the_camera_once() {
    let mut actor = CameraActor::new(true);
    let start = command("camera.state.set", &[0x08, 0x01]);
    assert_eq!(actor.handle(&start), Ok(CameraAction::StartCapture));
    assert!(!actor.holds_camera());
    assert_eq!(actor.handle(&start), Ok(CameraAction::Nothing));
}

#[test]
fn without_a_camera_nothing_starts() {
    let mut actor = CameraActor::new(false);
    assert_eq!(
        actor.handle(&command("camera.state.set", &[0x08, 0x01])),
        Ok(CameraAction::Nothing)
    );
    assert!(!actor.holds_camera());
}

#[test]
fn false_and_other_topics_do_nothing() {
    let mut actor = CameraActor::new(true);
    assert_eq!(actor.handle(&command("camera.state.set", &[])), Ok(CameraAction::Nothing));
    assert_eq!(actor.handle(&command("camera.get", &[0x08, 0x01])), Ok(CameraAction::Nothing));
    assert_eq!(actor.handle(&command("session.open", &[])), Ok(CameraAction::Nothing));
    assert!(actor.holds_camera());
}

#[test]
fn a_bad_payload_is_an_error_and_keeps_the_camera() {
    let mut actor = CameraActor::new(true);
    assert_eq!(
        actor.handle(&command("camera.state.set", &[0x08])),
        Err(DecodeError::Malformed)
    );
    assert_eq!(
        actor.handle(&command("camera.state.set", &[0x0A, 0])),
        Err(DecodeError::InvalidField)
    );
    assert!(actor.holds_camera());
    assert_eq!(CameraActor::decode_state(&[0x08, 0x01]), Ok(true));
}
